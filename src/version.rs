//! Versions of the `app-<version>` directories of a Windows install, compared
//! as tuples of numbers.
use vstd::prelude::*;

verus! {

/// Progress of reading a dotted version: finished components, the component
/// being read, whether it has a digit yet, and whether the text is still valid.
pub open spec fn scan_version(s: Seq<char>) -> (Seq<nat>, nat, bool, bool)
    decreases s.len(),
{
    if s.len() == 0 {
        (seq![], 0, false, true)
    } else {
        let (done, cur, has_digit, ok) = scan_version(s.drop_last());
        let c = s.last();
        if !ok {
            (done, cur, has_digit, false)
        } else if '0' <= c <= '9' {
            let v = (cur * 10 + (c as int - '0' as int)) as nat;
            (done, v, true, v <= u64::MAX)
        } else if c == '.' && has_digit {
            (done.push(cur), 0, false, true)
        } else {
            (done, cur, has_digit, false)
        }
    }
}

/// The numbers of a dotted version such as `1.0.9013`: non-empty runs of
/// digits separated by single dots, each number fitting in 64 bits.
pub open spec fn version_of(s: Seq<char>) -> Option<Seq<nat>> {
    let (done, cur, has_digit, ok) = scan_version(s);
    if ok && has_digit {
        Some(done.push(cur))
    } else {
        None
    }
}

/// The version of a directory named `app-<version>`.
pub open spec fn app_version(name: Seq<char>) -> Option<Seq<nat>> {
    if name.len() >= 4 && name.subrange(0, 4) == "app-"@ {
        version_of(name.subrange(4, name.len() as int))
    } else {
        None
    }
}

pub open spec fn nats(v: Seq<u64>) -> Seq<nat> {
    v.map_values(|x: u64| x as nat)
}

/// Tuple order: the first differing number decides; a proper prefix is smaller.
pub open spec fn version_less(a: Seq<nat>, b: Seq<nat>) -> bool
    decreases a.len(),
{
    if a.len() == 0 {
        b.len() > 0
    } else if b.len() == 0 {
        false
    } else if a[0] != b[0] {
        a[0] < b[0]
    } else {
        version_less(a.drop_first(), b.drop_first())
    }
}

pub proof fn lemma_version_less_total(a: Seq<nat>, b: Seq<nat>)
    ensures
        a =~= b || version_less(a, b) || version_less(b, a),
        !(version_less(a, b) && version_less(b, a)),
        !version_less(a, a),
    decreases a.len(),
{
    if a.len() > 0 {
        lemma_version_less_total(a.drop_first(), a.drop_first());
    }
    if a.len() > 0 && b.len() > 0 {
        lemma_version_less_total(a.drop_first(), b.drop_first());
        if a[0] == b[0] && a.drop_first() =~= b.drop_first() {
            assert(a =~= seq![a[0]] + a.drop_first());
            assert(b =~= seq![b[0]] + b.drop_first());
        }
    }
}

pub proof fn lemma_version_less_transitive(a: Seq<nat>, b: Seq<nat>, c: Seq<nat>)
    requires
        version_less(a, b),
        version_less(b, c),
    ensures
        version_less(a, c),
    decreases a.len(),
{
    if a.len() > 0 && b.len() > 0 && c.len() > 0 {
        if a[0] == b[0] && b[0] == c[0] {
            lemma_version_less_transitive(a.drop_first(), b.drop_first(), c.drop_first());
        }
    }
}

/// The version numbers of an `app-<version>` name, if it is one.
pub fn parse_app_version(name: &str) -> (r: Option<Vec<u64>>)
    ensures
        match app_version(name@) {
            Some(v) => r matches Some(w) && nats(w@) == v,
            None => r is None,
        },
{
    let n = name.unicode_len();
    if n < 4 {
        return None;
    }
    let prefix = name.substring_char(0, 4);
    let wanted = String::from_str("app-");
    if String::from_str(prefix) != wanted {
        return None;
    }
    let ghost s = name@.subrange(4, n as int);
    let mut done: Vec<u64> = Vec::new();
    let mut cur: u64 = 0;
    let mut has_digit = false;
    let mut i: usize = 4;
    while i < n
        invariant
            n == name@.len(),
            4 <= i <= n,
            s == name@.subrange(4, n as int),
            ({
                let (d, c, h, ok) = scan_version(s.subrange(0, i - 4));
                ok && d.len() == done@.len() && (forall|k: int|
                    0 <= k < d.len() ==> done@[k] as nat == #[trigger] d[k]) && c == cur as nat
                    && h == has_digit
            }),
        decreases n - i,
    {
        let c = name.get_char(i);
        proof {
            assert(s.subrange(0, i - 3).drop_last() =~= s.subrange(0, i - 4));
            assert(s.subrange(0, i - 3).last() == c);
        }
        if '0' <= c && c <= '9' {
            let d = (c as u32 - '0' as u32) as u64;
            if cur > (u64::MAX - d) / 10 {
                proof {
                    assert(cur * 10 + d > u64::MAX) by (nonlinear_arith)
                        requires
                            cur > (u64::MAX - d) / 10,
                            d <= 9,
                    ;
                    lemma_scan_stays_invalid(s, (i - 3) as int);
                }
                return None;
            }
            proof {
                assert(cur * 10 + d <= u64::MAX) by (nonlinear_arith)
                    requires
                        cur <= (u64::MAX - d) / 10,
                        d <= 9,
                ;
            }
            cur = cur * 10 + d;
            has_digit = true;
        } else if c == '.' && has_digit {
            done.push(cur);
            cur = 0;
            has_digit = false;
        } else {
            proof {
                lemma_scan_stays_invalid(s, (i - 3) as int);
            }
            return None;
        }
        i = i + 1;
    }
    proof {
        assert(s.subrange(0, n - 4) =~= s);
        assert(name@.subrange(0, 4) =~= prefix@);
    }
    if !has_digit {
        return None;
    }
    done.push(cur);
    proof {
        let (d, c, h, ok) = scan_version(s);
        assert(nats(done@) =~= d.push(c));
    }
    Some(done)
}

/// Once the scan of a prefix has failed, the scan of the whole text fails.
pub proof fn lemma_scan_stays_invalid(s: Seq<char>, k: int)
    requires
        0 <= k <= s.len(),
        !scan_version(s.subrange(0, k)).3,
    ensures
        !scan_version(s).3,
    decreases s.len() - k,
{
    if k < s.len() {
        assert(s.subrange(0, k + 1).drop_last() =~= s.subrange(0, k));
        lemma_scan_stays_invalid(s, k + 1);
    } else {
        assert(s.subrange(0, k) =~= s);
    }
}

/// Whether version `a` is below version `b`.
pub fn is_version_less(a: &Vec<u64>, b: &Vec<u64>) -> (r: bool)
    ensures
        r == version_less(nats(a@), nats(b@)),
{
    let ghost na = nats(a@);
    let ghost nb = nats(b@);
    let mut i: usize = 0;
    assert(na.skip(0) =~= na && nb.skip(0) =~= nb);
    while i < a.len() && i < b.len()
        invariant
            na == nats(a@),
            nb == nats(b@),
            i <= a@.len(),
            i <= b@.len(),
            version_less(na, nb) == version_less(na.skip(i as int), nb.skip(i as int)),
        decreases a.len() - i,
    {
        proof {
            assert(na.skip(i as int)[0] == a@[i as int] as nat);
            assert(nb.skip(i as int)[0] == b@[i as int] as nat);
            assert(na.skip(i as int).drop_first() =~= na.skip(i + 1));
            assert(nb.skip(i as int).drop_first() =~= nb.skip(i + 1));
        }
        if a[i] != b[i] {
            return a[i] < b[i];
        }
        i = i + 1;
    }
    i == a.len() && i < b.len()
}

/// Views of a list of names.
pub open spec fn names_view(names: Seq<String>) -> Seq<Seq<char>> {
    names.map_values(|s: String| s@)
}

/// The entry with the highest version, scanning in order; of equal versions
/// the first is kept. None when no entry is an `app-<version>` name.
pub open spec fn latest_index(names: Seq<Seq<char>>) -> Option<int>
    decreases names.len(),
{
    if names.len() == 0 {
        None
    } else {
        let prev = latest_index(names.drop_last());
        let k = names.len() - 1;
        match app_version(names[k]) {
            None => prev,
            Some(v) => match prev {
                None => Some(k),
                Some(p) => if version_less(app_version(names[p])->0, v) {
                    Some(k)
                } else {
                    prev
                },
            },
        }
    }
}

/// The chosen entry has a version that no other entry exceeds; when none is
/// chosen, no entry has a version.
pub proof fn lemma_latest_index_is_highest(names: Seq<Seq<char>>)
    ensures
        match latest_index(names) {
            Some(i) => 0 <= i < names.len() && app_version(names[i]) is Some && forall|j: int|
                0 <= j < names.len() && #[trigger] app_version(names[j]) is Some ==> !version_less(
                    app_version(names[i])->0,
                    app_version(names[j])->0,
                ),
            None => forall|j: int| 0 <= j < names.len() ==> #[trigger] app_version(names[j]) is None,
        },
    decreases names.len(),
{
    if names.len() > 0 {
        let init = names.drop_last();
        lemma_latest_index_is_highest(init);
        let k = names.len() - 1;
        assert forall|j: int| 0 <= j < k implies #[trigger] app_version(names[j]) == app_version(
            init[j],
        ) by {
            assert(names[j] == init[j]);
        }
        match (latest_index(init), app_version(names[k])) {
            (Some(p), Some(v)) => {
                let vp = app_version(names[p])->0;
                lemma_version_less_total(vp, v);
                if version_less(vp, v) {
                    assert forall|j: int|
                        0 <= j < names.len() && #[trigger] app_version(names[j]) is Some implies !version_less(
                        v,
                        app_version(names[j])->0,
                    ) by {
                        let vj = app_version(names[j])->0;
                        lemma_version_less_total(v, vj);
                        if j < k {
                            assert(app_version(init[j]) is Some);
                        }
                        if j < k && version_less(v, vj) {
                            lemma_version_less_transitive(vp, v, vj);
                        }
                    }
                }
            },
            (None, Some(v)) => {
                lemma_version_less_total(v, v);
            },
            _ => {},
        }
    }
}

/// Index of the `app-<version>` entry with the highest version.
pub fn latest_app_dir(names: &Vec<String>) -> (r: Option<usize>)
    ensures
        match latest_index(names_view(names@)) {
            Some(i) => r == Some(i as usize),
            None => r is None,
        },
{
    let ghost all = names_view(names@);
    let mut best: Option<(usize, Vec<u64>)> = None;
    let mut i: usize = 0;
    while i < names.len()
        invariant
            all == names_view(names@),
            i <= names@.len(),
            match latest_index(all.subrange(0, i as int)) {
                Some(k) => best matches Some(b) && b.0 == k && k < i && app_version(all[k])
                    == Some(nats(b.1@)),
                None => best is None,
            },
        decreases names.len() - i,
    {
        proof {
            assert(all.subrange(0, i + 1).drop_last() =~= all.subrange(0, i as int));
            assert(all.subrange(0, i + 1)[i as int] == all[i as int]);
            assert(all[i as int] == names@[i as int]@);
        }
        match parse_app_version(names[i].as_str()) {
            Some(w) => {
                match best {
                    Some(b) => {
                        proof {
                            assert(all.subrange(0, i + 1)[b.0 as int] == all[b.0 as int]);
                        }
                        if is_version_less(&b.1, &w) {
                            best = Some((i, w));
                        } else {
                            best = Some(b);
                        }
                    },
                    None => {
                        best = Some((i, w));
                    },
                }
            },
            None => {},
        }
        i = i + 1;
    }
    proof {
        assert(all.subrange(0, names@.len() as int) =~= all);
    }
    match best {
        Some(b) => Some(b.0),
        None => None,
    }
}

} // verus!

//! Parsing of the capability advertisement: a line of tokens separated by white
//! space, each either a bare name or `name=value`.

use vstd::prelude::*;

verus! {

/// Why an advertisement could not be parsed.
#[derive(Debug, Clone, PartialEq, Eq)]
pub enum Error {
    /// A token has an empty name or more than one `=`.
    MalformedToken { token: Vec<u8> },
}

/// One advertised capability: its name and, where the token had `=`, its value.
#[derive(Debug, Clone, PartialEq, Eq)]
pub struct Capability {
    pub name: Vec<u8>,
    pub value: Option<Vec<u8>>,
}

/// The value of a capability: its name and its optional value.
pub open spec fn capability_view(c: Capability) -> (Seq<u8>, Option<Seq<u8>>) {
    (
        c.name@,
        match c.value {
            Some(v) => Some(v@),
            None => None,
        },
    )
}

/// The capabilities of one advertisement, in the order in which they came.
#[derive(Debug, Clone, PartialEq, Eq)]
pub struct Capabilities {
    entries: Vec<Capability>,
}

impl View for Capabilities {
    type V = Seq<(Seq<u8>, Option<Seq<u8>>)>;

    closed spec fn view(&self) -> Self::V {
        entries_view(self.entries@)
    }
}

/// The values of a sequence of capabilities.
pub open spec fn entries_view(v: Seq<Capability>) -> Seq<(Seq<u8>, Option<Seq<u8>>)> {
    v.map_values(|c: Capability| capability_view(c))
}

/// The capabilities of a sequence of well-formed tokens.
pub open spec fn capabilities_of(ts: Seq<Seq<u8>>) -> Seq<(Seq<u8>, Option<Seq<u8>>)> {
    ts.map_values(|t: Seq<u8>| capability_of(t))
}

/// Space, tab, line feed and carriage return.
pub open spec fn is_space(b: u8) -> bool {
    b == 32 || b == 9 || b == 10 || b == 13
}

/// The tokens completed within the first `i` bytes, and the token still open there.
pub open spec fn scan(s: Seq<u8>, i: nat) -> (Seq<Seq<u8>>, Seq<u8>)
    decreases i,
{
    if i == 0 || i > s.len() {
        (Seq::empty(), Seq::empty())
    } else {
        let (done, open) = scan(s, (i - 1) as nat);
        if is_space(s[i - 1]) {
            if open.len() > 0 {
                (done.push(open), Seq::empty())
            } else {
                (done, Seq::empty())
            }
        } else {
            (done, open.push(s[i - 1]))
        }
    }
}

/// The maximal runs of non-space bytes of `s`, in order.
pub open spec fn tokens(s: Seq<u8>) -> Seq<Seq<u8>> {
    let (done, open) = scan(s, s.len());
    if open.len() > 0 {
        done.push(open)
    } else {
        done
    }
}

/// A token is well formed if its name is not empty and it holds at most one `=`.
pub open spec fn token_ok(t: Seq<u8>) -> bool {
    &&& t.len() > 0
    &&& t[0] != 61
    &&& forall|i: int, j: int| 0 <= i < j < t.len() && t[i] == 61 ==> t[j] != 61
}

/// The capability of a well-formed token: split at its `=`, if it has one.
pub open spec fn capability_of(t: Seq<u8>) -> (Seq<u8>, Option<Seq<u8>>) {
    if exists|k: int| 0 <= k < t.len() && t[k] == 61 {
        let k = choose|k: int| 0 <= k < t.len() && t[k] == 61;
        (t.take(k), Some(t.skip(k + 1)))
    } else {
        (t, None)
    }
}

/// What parsing `line` gives: its capabilities where every token is well formed,
/// else a malformed token of it.
pub open spec fn parse_outcome(line: Seq<u8>, r: Result<Capabilities, Error>) -> bool {
    match r {
        Ok(caps) => {
            &&& forall|k: int| 0 <= k < tokens(line).len() ==> token_ok(#[trigger] tokens(line)[k])
            &&& caps@ == capabilities_of(tokens(line))
        },
        Err(Error::MalformedToken { token }) => tokens(line).contains(token@) && !token_ok(token@),
    }
}

proof fn lemma_scan_prefix(s: Seq<u8>, i: nat, j: nat)
    requires
        i <= j <= s.len(),
    ensures
        scan(s, i).0.len() <= scan(s, j).0.len(),
        forall|k: int| 0 <= k < scan(s, i).0.len() ==> scan(s, j).0[k] == scan(s, i).0[k],
    decreases j - i,
{
    if i < j {
        lemma_scan_prefix(s, i, (j - 1) as nat);
    }
}

/// The bytes of `t` from `a` to `b`.
pub(crate) fn copy_range(t: &[u8], a: usize, b: usize) -> (r: Vec<u8>)
    requires
        a <= b <= t@.len(),
    ensures
        r@ == t@.subrange(a as int, b as int),
{
    let mut r: Vec<u8> = Vec::new();
    let mut i: usize = a;
    while i < b
        invariant
            a <= i <= b <= t@.len(),
            r@ == t@.subrange(a as int, i as int),
        decreases b - i,
    {
        r.push(t[i]);
        i = i + 1;
        assert(r@ =~= t@.subrange(a as int, i as int));
    }
    r
}

/// Whether two byte strings are equal.
pub(crate) fn bytes_eq(x: &[u8], y: &[u8]) -> (r: bool)
    ensures
        r == (x@ == y@),
{
    if x.len() != y.len() {
        return false;
    }
    let mut i: usize = 0;
    while i < x.len()
        invariant
            x@.len() == y@.len(),
            i <= x@.len(),
            forall|k: int| 0 <= k < i ==> x@[k] == y@[k],
        decreases x@.len() - i,
    {
        if x[i] != y[i] {
            return false;
        }
        i = i + 1;
    }
    assert(x@ =~= y@);
    true
}

/// The capability of one token, or `None` where the token is malformed.
fn parse_token(t: &[u8]) -> (r: Option<Capability>)
    ensures
        r is Some <==> token_ok(t@),
        r matches Some(c) ==> capability_view(c) == capability_of(t@),
{
    let mut eq: Option<usize> = None;
    let mut k: usize = 0;
    while k < t.len()
        invariant
            k <= t@.len(),
            eq is None ==> forall|i: int| 0 <= i < k ==> t@[i] != 61,
            eq matches Some(e) ==> e < k && t@[e as int] == 61 && forall|i: int|
                0 <= i < k && i != e ==> t@[i] != 61,
        decreases t@.len() - k,
    {
        if t[k] == 61 {
            if eq.is_some() {
                assert(!token_ok(t@)) by {
                    let e = eq->0 as int;
                    assert(t@[e] == 61 && t@[k as int] == 61 && e < k);
                }
                return None;
            }
            eq = Some(k);
        }
        k = k + 1;
    }
    if t.len() == 0 {
        return None;
    }
    match eq {
        None => {
            assert(!(exists|k: int| 0 <= k < t@.len() && t@[k] == 61));
            Some(Capability { name: copy_range(t, 0, t.len()), value: None })
        },
        Some(e) => {
            if e == 0 {
                return None;
            }
            proof {
                assert(t@.subrange(0, t@.len() as int) =~= t@);
                assert(exists|k: int| 0 <= k < t@.len() && t@[k] == 61);
                let c = choose|k: int| 0 <= k < t@.len() && t@[k] == 61;
                assert(c == e);
                assert(t@.take(e as int) =~= t@.subrange(0, e as int));
                assert(t@.skip(e + 1) =~= t@.subrange(e + 1, t@.len() as int));
            }
            Some(
                Capability {
                    name: copy_range(t, 0, e),
                    value: Some(copy_range(t, e + 1, t.len())),
                },
            )
        },
    }
}

impl Capabilities {
    /// Parses one advertisement line. Fails on the first malformed token.
    pub fn from_line(line: &[u8]) -> (r: Result<Capabilities, Error>)
        ensures
            parse_outcome(line@, r),
    {
        let ghost s = line@;
        let mut entries: Vec<Capability> = Vec::new();
        let mut open: Vec<u8> = Vec::new();
        let mut i: usize = 0;
        while i < line.len()
            invariant
                i <= s.len(),
                s == line@,
                open@ == scan(s, i as nat).1,
                forall|k: int| 0 <= k < scan(s, i as nat).0.len() ==> token_ok(#[trigger] scan(s, i as nat).0[k]),
                entries_view(entries@) == capabilities_of(scan(s, i as nat).0),
            decreases s.len() - i,
        {
            let b = line[i];
            let ghost before = scan(s, i as nat);
            assert(scan(s, (i + 1) as nat) == {
                if is_space(b) {
                    if before.1.len() > 0 {
                        (before.0.push(before.1), Seq::<u8>::empty())
                    } else {
                        (before.0, Seq::<u8>::empty())
                    }
                } else {
                    (before.0, before.1.push(b))
                }
            });
            if b == 32 || b == 9 || b == 10 || b == 13 {
                if open.len() > 0 {
                    match parse_token(open.as_slice()) {
                        Some(c) => {
                            let ghost prev = entries@;
                            entries.push(c);
                            proof {
                                let next = scan(s, (i + 1) as nat).0;
                                assert(entries@ == prev.push(c));
                                assert(next == before.0.push(open@));
                                assert forall|k: int| 0 <= k < next.len() implies token_ok(#[trigger] next[k]) by {
                                    if k < before.0.len() {
                                        assert(next[k] == before.0[k]);
                                    }
                                }
                                assert(prev.len() == before.0.len()) by {
                                    assert(entries_view(prev).len() == capabilities_of(before.0).len());
                                }
                                assert(entries_view(entries@).len() == capabilities_of(next).len());
                                assert(entries_view(entries@)[prev.len() as int] == capabilities_of(next)[prev.len() as int]);
                                assert(entries_view(entries@) =~= capabilities_of(next)) by {
                                    assert forall|k: int| 0 <= k < next.len() implies #[trigger] entries_view(entries@)[k] == capabilities_of(next)[k] by {
                                        if k < before.0.len() {
                                            assert(entries_view(prev)[k] == capabilities_of(before.0)[k]);
                                        }
                                    }
                                }
                            }
                        },
                        None => {
                            proof {
                                lemma_scan_prefix(s, (i + 1) as nat, s.len());
                                let k = before.0.len() as int;
                                assert(tokens(s)[k] == open@);
                            }
                            return Err(Error::MalformedToken { token: open });
                        },
                    }
                }
                open = Vec::new();
            } else {
                open.push(b);
            }
            i = i + 1;
        }
        let ghost fin = scan(s, s.len());
        if open.len() > 0 {
            match parse_token(open.as_slice()) {
                Some(c) => {
                    let ghost prev = entries@;
                    entries.push(c);
                    proof {
                        let all = tokens(s);
                        assert(entries@ == prev.push(c));
                        assert(all == fin.0.push(open@));
                        assert forall|k: int| 0 <= k < all.len() implies token_ok(#[trigger] all[k]) by {
                            if k < fin.0.len() {
                                assert(all[k] == fin.0[k]);
                            }
                        }
                        assert(entries_view(entries@) =~= capabilities_of(all)) by {
                            assert forall|k: int| 0 <= k < all.len() implies #[trigger] entries_view(entries@)[k] == capabilities_of(all)[k] by {
                                if k < fin.0.len() {
                                    assert(entries_view(prev)[k] == capabilities_of(fin.0)[k]);
                                }
                            }
                        }
                    }
                },
                None => {
                    assert(tokens(s)[fin.0.len() as int] == open@);
                    return Err(Error::MalformedToken { token: open });
                },
            }
        }
        proof {
            if open@.len() == 0 {
                assert(tokens(s) == fin.0);
            }
        }
        Ok(Capabilities { entries })
    }

    /// The number of capabilities.
    pub fn len(&self) -> (r: usize)
        ensures
            r == self@.len(),
    {
        self.entries.len()
    }

    /// The value of the first capability named `name`: `None` where there is none,
    /// `Some(None)` where it was a bare token.
    pub fn value_of(&self, name: &[u8]) -> (r: Option<Option<Vec<u8>>>)
        ensures
            match r {
                None => forall|k: int| 0 <= k < self@.len() ==> (#[trigger] self@[k]).0 != name@,
                Some(v) => exists|k: int|
                    0 <= k < self@.len() && (#[trigger] self@[k]).0 == name@ && (forall|j: int|
                        0 <= j < k ==> self@[j].0 != name@) && self@[k].1 == match v {
                        Some(x) => Some(x@),
                        None => None::<Seq<u8>>,
                    },
            },
    {
        let mut k: usize = 0;
        while k < self.entries.len()
            invariant
                k <= self.entries@.len(),
                forall|j: int| 0 <= j < k ==> (#[trigger] self@[j]).0 != name@,
            decreases self.entries@.len() - k,
        {
            let c = &self.entries[k];
            if bytes_eq(c.name.as_slice(), name) {
                let v = match &c.value {
                    Some(x) => Some(copy_range(x.as_slice(), 0, x.len())),
                    None => None,
                };
                proof {
                    assert(self@[k as int] == capability_view(*c));
                    if let Some(x) = &c.value {
                        assert(x@.subrange(0, x@.len() as int) =~= x@);
                    }
                }
                return Some(v);
            }
            assert(self@[k as int] == capability_view(*c));
            k = k + 1;
        }
        None
    }

    /// Whether a capability named `name` was advertised.
    pub fn contains(&self, name: &[u8]) -> (r: bool)
        ensures
            r == exists|k: int| 0 <= k < self@.len() && (#[trigger] self@[k]).0 == name@,
    {
        self.value_of(name).is_some()
    }
}

/// The protocol versions of the smart protocol.
#[derive(Debug, Clone, Copy, PartialEq, Eq, Hash, Structural)]
pub enum Protocol {
    V0,
    V1,
    V2,
}

/// The bytes `version ` that open a version line.
pub open spec fn version_prefix() -> Seq<u8> {
    seq![118u8, 101u8, 114u8, 115u8, 105u8, 111u8, 110u8, 32u8]
}

/// The line without its trailing line feed, if it has one.
pub open spec fn without_lf(s: Seq<u8>) -> Seq<u8> {
    if s.len() > 0 && s.last() == 10 {
        s.drop_last()
    } else {
        s
    }
}

/// The protocol that the first line of a response announces: a version line names
/// version 1 or 2, or a version that is not supported; any other line means version 0.
pub open spec fn announced_protocol(line: Seq<u8>) -> Result<Protocol, Seq<u8>> {
    let t = without_lf(line);
    if t.len() >= 8 && t.take(8) == version_prefix() {
        let v = t.skip(8);
        if v == seq![49u8] {
            Ok(Protocol::V1)
        } else if v == seq![50u8] {
            Ok(Protocol::V2)
        } else {
            Err(v)
        }
    } else {
        Ok(Protocol::V0)
    }
}

/// The protocol that the first line of a response announces.
pub fn detect_protocol(line: &[u8]) -> (r: Result<Protocol, crate::non_io_types::Error>)
    ensures
        match announced_protocol(line@) {
            Ok(p) => r == Ok::<Protocol, crate::non_io_types::Error>(p),
            Err(v) => r matches Err(crate::non_io_types::Error::UnsupportedProtocolVersion(x))
                && x@ == v,
        },
{
    let n: usize = if line.len() > 0 && line[line.len() - 1] == 10 {
        line.len() - 1
    } else {
        line.len()
    };
    let ghost t = without_lf(line@);
    assert(t =~= line@.subrange(0, n as int));
    if n < 8 {
        return Ok(Protocol::V0);
    }
    let prefix: [u8; 8] = [118, 101, 114, 115, 105, 111, 110, 32];
    let mut k: usize = 0;
    while k < 8
        invariant
            k <= 8,
            n <= line@.len(),
            n >= 8,
            t == line@.subrange(0, n as int),
            prefix@ == version_prefix(),
            forall|j: int| 0 <= j < k ==> line@[j] == version_prefix()[j],
        decreases 8 - k,
    {
        if line[k] != prefix[k] {
            assert(t.take(8)[k as int] != version_prefix()[k as int]);
            return Ok(Protocol::V0);
        }
        k = k + 1;
    }
    assert(t.take(8) =~= version_prefix());
    let v = copy_range(line, 8, n);
    assert(v@ =~= t.skip(8));
    if v.len() == 1 && v[0] == 49 {
        assert(v@ =~= seq![49u8]);
        Ok(Protocol::V1)
    } else if v.len() == 1 && v[0] == 50 {
        assert(v@ =~= seq![50u8]);
        Ok(Protocol::V2)
    } else {
        assert(v@ != seq![49u8] && v@ != seq![50u8]) by {
            if v@.len() == 1 {
                assert(seq![49u8][0] == 49u8);
                assert(seq![50u8][0] == 50u8);
            }
        }
        Err(crate::non_io_types::Error::UnsupportedProtocolVersion(v))
    }
}

} // verus!

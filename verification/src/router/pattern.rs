//! Route patterns.
use vstd::prelude::*;

verus! {

/// A route pattern: its text and the byte ranges of its `/`-separated segments.
#[derive(Debug, Clone)]
pub struct Pattern {
    string: String,
    segments: Vec<(usize, usize)>,
}

/// Why a pattern was refused.
#[derive(Debug, Clone, Copy, PartialEq, Eq, Structural)]
pub enum ParsePatternError {
    /// Path pattern must be either empty or start with a leading slash.
    LeadingSlash,
}

/// What a pattern holds, as plain values.
pub struct PatternSpec {
    pub string: Seq<char>,
    pub segments: Seq<(usize, usize)>,
}

impl View for Pattern {
    type V = PatternSpec;

    closed spec fn view(&self) -> PatternSpec {
        PatternSpec { string: self.string@, segments: self.segments@ }
    }
}

/// `b` is the byte `/`.
pub open spec fn is_slash(b: u8) -> bool {
    b == 0x2Fu8
}

/// The test for the byte `/`, as a function value.
pub open spec fn slash_pred() -> spec_fn(u8) -> bool {
    |x: u8| is_slash(x)
}

/// The byte ranges of the pieces of `b` that follow each `/`, each running to the next `/`
/// or to the end: the pieces that splitting at `/` yields after the first.
pub open spec fn slash_ranges(b: Seq<u8>) -> Seq<(usize, usize)>
    decreases b.len(),
{
    let j = crate::text::last_matching(b, slash_pred());
    if j < 0 {
        Seq::empty()
    } else {
        proof {
            crate::text::lemma_last_matching_bounds(b, slash_pred());
        }
        slash_ranges(b.subrange(0, j)).push(((j + 1) as usize, b.len() as usize))
    }
}

proof fn lemma_slash_ranges_step(b: Seq<u8>, p: int, q: int)
    requires
        0 <= p < q <= b.len(),
        is_slash(b[p]),
        forall|k: int| p < k < q ==> !is_slash(#[trigger] b[k]),
    ensures
        slash_ranges(b.subrange(0, q)) == slash_ranges(b.subrange(0, p)).push(((p + 1) as usize, q as usize)),
{
    let pred = slash_pred();
    crate::text::lemma_last_matching_take(b, pred, p, q);
    assert(b.subrange(0, q).subrange(0, p) =~= b.subrange(0, p));
}

impl Pattern {
    /// A pattern with the given text and segment ranges.
    pub fn new(string: String, segments: Vec<(usize, usize)>) -> (r: Self)
        ensures
            r@ == (PatternSpec { string: string@, segments: segments@ }),
    {
        Pattern { string, segments }
    }

    /// The pattern's text.
    pub fn as_str(&self) -> (r: &str)
        ensures
            r@ == self@.string,
    {
        self.string.as_str()
    }

    /// Parses `s` as a pattern. The empty pattern has no segments; any other must start
    /// with `/`, and its segments are the pieces between the slashes.
    pub fn from_str(s: &str) -> (r: Result<Self, ParsePatternError>)
        ensures
            s@.len() == 0 ==> (r matches Ok(p) && p@ == (PatternSpec { string: s@, segments: Seq::empty() })),
            s@.len() > 0 && s@[0] != '/' ==> r == Err::<Self, ParsePatternError>(ParsePatternError::LeadingSlash),
            s@.len() > 0 && s@[0] == '/' ==> (r matches Ok(p) && p@ == (PatternSpec {
                string: s@,
                segments: slash_ranges(vstd::utf8::encode_utf8(s@)),
            })),
    {
        if s.is_empty() {
            assert(s@ =~= Seq::<char>::empty());
            return Ok(Pattern::new(String::new(), Vec::new()));
        }
        if s.get_char(0) != '/' {
            return Err(ParsePatternError::LeadingSlash);
        }
        let bytes = s.as_bytes();
        let n = bytes.len();
        let ghost b = bytes@;
        let mut segments: Vec<(usize, usize)> = Vec::new();
        let mut found = false;
        let mut p: usize = 0;
        let mut i: usize = 0;
        while i < n
            invariant
                n == b.len(),
                b == bytes@,
                i <= n,
                !found ==> forall|k: int| 0 <= k < i ==> !is_slash(#[trigger] b[k]),
                !found ==> segments@ == Seq::<(usize, usize)>::empty(),
                found ==> p < i && is_slash(b[p as int]),
                found ==> forall|k: int| p < k < i ==> !is_slash(#[trigger] b[k]),
                found ==> segments@ == slash_ranges(b.subrange(0, p as int)),
            decreases n - i,
        {
            if bytes[i] == 0x2Fu8 {
                if found {
                    proof {
                        lemma_slash_ranges_step(b, p as int, i as int);
                    }
                    segments.push((p + 1, i));
                } else {
                    proof {
                        let t = b.subrange(0, i as int);
                        assert forall|k: int| 0 <= k < t.len() implies !slash_pred()(#[trigger] t[k]) by {
                            assert(t[k] == b[k]);
                            assert(!is_slash(b[k]));
                            assert(!is_slash(t[k]));
                        }
                        crate::text::lemma_last_matching_none(t, slash_pred());
                    }
                    assert(slash_ranges(b.subrange(0, i as int)) == Seq::<(usize, usize)>::empty());
                }
                found = true;
                p = i;
            }
            i = i + 1;
        }
        if found {
            proof {
                lemma_slash_ranges_step(b, p as int, n as int);
            }
            segments.push((p + 1, n));
        } else {
            proof {
                let t = b.subrange(0, n as int);
                assert forall|k: int| 0 <= k < t.len() implies !slash_pred()(#[trigger] t[k]) by {
                    assert(t[k] == b[k]);
                }
                crate::text::lemma_last_matching_none(t, slash_pred());
            }
        }
        assert(b.subrange(0, n as int) =~= b);
        Ok(Pattern::new(s.to_owned(), segments))
    }
}

} // verus!

//! Identifier generation: short, memorable names drawn from fixed word lists.
//!
//! A generator holds an adjective list and a noun list, fixed at start-up, and
//! draws words independently and uniformly at random, concatenating them as
//! `adjective [adjective] noun`. Whether one or two adjectives are used is a
//! deployment-time choice. The generator does not guarantee global
//! uniqueness; the store enforces that at creation time.

use vstd::prelude::*;
use vstd::string::StrSliceExecFns;
use vstd::string::StringExecFns;
use vstd::string::StringExecFnsIsAscii;

use crate::text::is_lower_alpha;
use crate::text::valid_id;

verus! {

/// Relies on `rand::thread_rng` and `rand::Rng::gen_range`: returns a
/// uniformly random index below `bound`. `gen_range` panics on an empty
/// range, which the precondition rules out.
#[verifier::external_body]
fn pick_index(bound: usize) -> (r: usize)
    requires
        bound > 0,
    ensures
        r < bound,
{
    rand::Rng::gen_range(&mut rand::thread_rng(), 0..bound)
}

/// Whether `s` is a usable word: non-empty, lowercase ASCII letters only.
pub fn check_word(s: &String) -> (b: bool)
    ensures
        b == valid_id(s@),
{
    broadcast use vstd::string::is_ascii_spec_bytes;

    if !s.is_ascii() {
        proof {
            if valid_id(s@) {
                assert forall|i: int| 0 <= i < s@.len() implies '\0' <= #[trigger] s@[i]
                    <= '\u{7f}' by {
                    assert(is_lower_alpha(s@[i]));
                }
                assert(vstd::utf8::is_ascii_chars(s@));
            }
        }
        return false;
    }
    let slice = s.as_str();
    let bytes = slice.as_bytes_vec();
    proof {
        assert(vstd::string::is_ascii(slice));
        assert(bytes@ =~= Seq::new(s@.len(), |k: int| s@.index(k) as u8));
    }
    let n = bytes.len();
    if n == 0 {
        return false;
    }
    let mut i: usize = 0;
    while i < n
        invariant
            s.is_ascii(),
            slice@ == s@,
            n == bytes@.len(),
            bytes@ =~= Seq::new(s@.len(), |k: int| s@.index(k) as u8),
            i <= n,
            forall|k: int| 0 <= k < i ==> is_lower_alpha(#[trigger] s@[k]),
        decreases n - i,
    {
        let b = bytes[i];
        assert(b == s@[i as int] as u8);
        assert('\0' <= s@[i as int] <= '\u{7f}');
        if b < 97 || b > 122 {
            assert(!is_lower_alpha(s@[i as int]));
            return false;
        }
        assert(is_lower_alpha(s@[i as int]));
        i += 1;
    }
    true
}

/// Whether every entry of `v` is a usable word.
pub open spec fn all_words_valid(v: Seq<String>) -> bool {
    forall|i: int| 0 <= i < v.len() ==> valid_id(#[trigger] v[i]@)
}

fn check_words(v: &Vec<String>) -> (b: bool)
    ensures
        b == all_words_valid(v@),
{
    let n = v.len();
    let mut i: usize = 0;
    while i < n
        invariant
            n == v@.len(),
            i <= n,
            forall|k: int| 0 <= k < i ==> valid_id(#[trigger] v@[k]@),
        decreases n - i,
    {
        if !check_word(&v[i]) {
            return false;
        }
        i += 1;
    }
    true
}

/// The identifier generator: fixed word lists plus the word-count scheme.
pub struct IdGen {
    pub adjectives: Vec<String>,
    pub nouns: Vec<String>,
    /// When set, an identifier is two adjectives and a noun; otherwise one
    /// adjective and a noun.
    pub double_adjective: bool,
}

impl IdGen {
    /// Both lists are non-empty and hold only lowercase ASCII words.
    pub open spec fn wf(&self) -> bool {
        &&& self.adjectives@.len() > 0
        &&& self.nouns@.len() > 0
        &&& all_words_valid(self.adjectives@)
        &&& all_words_valid(self.nouns@)
    }

    /// Whether `s` is one of the combinations this generator can produce.
    pub open spec fn can_generate(&self, s: Seq<char>) -> bool {
        if self.double_adjective {
            exists|i: int, j: int, k: int|
                0 <= i < self.adjectives@.len() && 0 <= j < self.adjectives@.len() && 0 <= k
                    < self.nouns@.len() && s == self.adjectives@[i]@ + self.adjectives@[j]@
                    + self.nouns@[k]@
        } else {
            exists|i: int, k: int|
                0 <= i < self.adjectives@.len() && 0 <= k < self.nouns@.len() && s
                    == self.adjectives@[i]@ + self.nouns@[k]@
        }
    }

    /// Build a generator after validating the word lists.
    pub fn new(adjectives: Vec<String>, nouns: Vec<String>, double_adjective: bool) -> (r: Option<
        IdGen,
    >)
        ensures
            r is Some <==> adjectives@.len() > 0 && nouns@.len() > 0 && all_words_valid(
                adjectives@,
            ) && all_words_valid(nouns@),
            r is Some ==> r->0.wf() && r->0.adjectives == adjectives && r->0.nouns == nouns
                && r->0.double_adjective == double_adjective,
    {
        if adjectives.len() == 0 || nouns.len() == 0 {
            return None;
        }
        if !check_words(&adjectives) || !check_words(&nouns) {
            return None;
        }
        Some(
            IdGen {
                adjectives,
                nouns,
                double_adjective,
            },
        )
    }

    /// The identifier the drawn indices denote: the `i`-th adjective, then —
    /// when the scheme takes two adjectives — the `j`-th adjective, then the
    /// `k`-th noun.
    pub open spec fn combined_spec(&self, i: int, j: int, k: int) -> Seq<char> {
        if self.double_adjective {
            self.adjectives@[i]@ + self.adjectives@[j]@ + self.nouns@[k]@
        } else {
            self.adjectives@[i]@ + self.nouns@[k]@
        }
    }

    /// Build the identifier the drawn indices `(i, j, k)` denote: the pure
    /// part of generation, a function of the indices alone. `j` is read only
    /// when the scheme takes two adjectives.
    pub fn combine(&self, i: usize, j: usize, k: usize) -> (r: String)
        requires
            self.wf(),
            i < self.adjectives@.len(),
            self.double_adjective ==> j < self.adjectives@.len(),
            k < self.nouns@.len(),
        ensures
            r@ == self.combined_spec(i as int, j as int, k as int),
            valid_id(r@),
    {
        let first = &self.adjectives[i];
        let mut out = first.clone();
        if self.double_adjective {
            out.append(self.adjectives[j].as_str());
            out.append(self.nouns[k].as_str());
            proof {
                let ghost a = self.adjectives@[i as int]@;
                let ghost b = self.adjectives@[j as int]@;
                let ghost c = self.nouns@[k as int]@;
                assert(out@ == a + b + c);
                lemma_concat_valid(a, b);
                lemma_concat_valid(a + b, c);
            }
        } else {
            out.append(self.nouns[k].as_str());
            proof {
                let ghost a = self.adjectives@[i as int]@;
                let ghost c = self.nouns@[k as int]@;
                assert(out@ == a + c);
                lemma_concat_valid(a, c);
            }
        }
        out
    }

    /// Draw one identifier at random: draw the indices, then build exactly
    /// the combination they denote (`combine`). Which indices come up
    /// depends on the random source alone; everything after the draw is a
    /// pure function of them.
    pub fn generate(&self) -> (r: String)
        requires
            self.wf(),
        ensures
            valid_id(r@),
            self.can_generate(r@),
    {
        let i = pick_index(self.adjectives.len());
        let j = if self.double_adjective {
            pick_index(self.adjectives.len())
        } else {
            0
        };
        let k = pick_index(self.nouns.len());
        let r = self.combine(i, j, k);
        proof {
            if self.double_adjective {
                assert(r@ == self.adjectives@[i as int]@ + self.adjectives@[j as int]@
                    + self.nouns@[k as int]@);
            } else {
                assert(r@ == self.adjectives@[i as int]@ + self.nouns@[k as int]@);
            }
        }
        r
    }
}

/// Concatenating two valid identifiers yields a valid identifier.
pub proof fn lemma_concat_valid(a: Seq<char>, b: Seq<char>)
    requires
        valid_id(a),
        valid_id(b),
    ensures
        valid_id(a + b),
{
    assert forall|i: int| 0 <= i < (a + b).len() implies is_lower_alpha(#[trigger] (a + b)[i]) by {
        if i < a.len() {
            assert((a + b)[i] == a[i]);
        } else {
            assert((a + b)[i] == b[i - a.len()]);
        }
    }
}

/// Append a word that is already known to be usable.
fn push_word(v: &mut Vec<String>, w: &str)
    requires
        valid_id(w@),
        all_words_valid(old(v)@),
    ensures
        final(v)@.len() == old(v)@.len() + 1,
        all_words_valid(final(v)@),
{
    v.push(w.to_owned());
    proof {
        assert forall|i: int| 0 <= i < v@.len() implies valid_id(#[trigger] v@[i]@) by {
            if i < v@.len() - 1 {
                assert(v@[i] == old(v)@[i]);
            }
        }
    }
}

/// A small built-in adjective list: non-empty, lowercase ASCII words only.
pub fn default_adjectives() -> (r: Vec<String>)
    ensures
        r@.len() > 0,
        all_words_valid(r@),
{
    let mut v: Vec<String> = Vec::new();
    proof {
        reveal_strlit("ancient");
    }
    push_word(&mut v, "ancient");
    proof {
        reveal_strlit("brave");
    }
    push_word(&mut v, "brave");
    proof {
        reveal_strlit("calm");
    }
    push_word(&mut v, "calm");
    proof {
        reveal_strlit("daring");
    }
    push_word(&mut v, "daring");
    proof {
        reveal_strlit("eager");
    }
    push_word(&mut v, "eager");
    proof {
        reveal_strlit("fancy");
    }
    push_word(&mut v, "fancy");
    proof {
        reveal_strlit("gentle");
    }
    push_word(&mut v, "gentle");
    proof {
        reveal_strlit("happy");
    }
    push_word(&mut v, "happy");
    proof {
        reveal_strlit("icy");
    }
    push_word(&mut v, "icy");
    proof {
        reveal_strlit("jolly");
    }
    push_word(&mut v, "jolly");
    proof {
        reveal_strlit("kind");
    }
    push_word(&mut v, "kind");
    proof {
        reveal_strlit("lucky");
    }
    push_word(&mut v, "lucky");
    proof {
        reveal_strlit("mellow");
    }
    push_word(&mut v, "mellow");
    proof {
        reveal_strlit("noble");
    }
    push_word(&mut v, "noble");
    proof {
        reveal_strlit("odd");
    }
    push_word(&mut v, "odd");
    proof {
        reveal_strlit("proud");
    }
    push_word(&mut v, "proud");
    proof {
        reveal_strlit("quiet");
    }
    push_word(&mut v, "quiet");
    proof {
        reveal_strlit("rapid");
    }
    push_word(&mut v, "rapid");
    proof {
        reveal_strlit("silent");
    }
    push_word(&mut v, "silent");
    proof {
        reveal_strlit("tiny");
    }
    push_word(&mut v, "tiny");
    proof {
        reveal_strlit("upbeat");
    }
    push_word(&mut v, "upbeat");
    proof {
        reveal_strlit("vivid");
    }
    push_word(&mut v, "vivid");
    proof {
        reveal_strlit("witty");
    }
    push_word(&mut v, "witty");
    proof {
        reveal_strlit("young");
    }
    push_word(&mut v, "young");
    v
}

/// A small built-in noun list: non-empty, lowercase ASCII words only.
pub fn default_nouns() -> (r: Vec<String>)
    ensures
        r@.len() > 0,
        all_words_valid(r@),
{
    let mut v: Vec<String> = Vec::new();
    proof {
        reveal_strlit("anchor");
    }
    push_word(&mut v, "anchor");
    proof {
        reveal_strlit("breeze");
    }
    push_word(&mut v, "breeze");
    proof {
        reveal_strlit("canyon");
    }
    push_word(&mut v, "canyon");
    proof {
        reveal_strlit("dolphin");
    }
    push_word(&mut v, "dolphin");
    proof {
        reveal_strlit("ember");
    }
    push_word(&mut v, "ember");
    proof {
        reveal_strlit("falcon");
    }
    push_word(&mut v, "falcon");
    proof {
        reveal_strlit("garden");
    }
    push_word(&mut v, "garden");
    proof {
        reveal_strlit("harbor");
    }
    push_word(&mut v, "harbor");
    proof {
        reveal_strlit("island");
    }
    push_word(&mut v, "island");
    proof {
        reveal_strlit("jungle");
    }
    push_word(&mut v, "jungle");
    proof {
        reveal_strlit("kettle");
    }
    push_word(&mut v, "kettle");
    proof {
        reveal_strlit("lantern");
    }
    push_word(&mut v, "lantern");
    proof {
        reveal_strlit("meadow");
    }
    push_word(&mut v, "meadow");
    proof {
        reveal_strlit("nebula");
    }
    push_word(&mut v, "nebula");
    proof {
        reveal_strlit("ocean");
    }
    push_word(&mut v, "ocean");
    proof {
        reveal_strlit("pebble");
    }
    push_word(&mut v, "pebble");
    proof {
        reveal_strlit("quartz");
    }
    push_word(&mut v, "quartz");
    proof {
        reveal_strlit("river");
    }
    push_word(&mut v, "river");
    proof {
        reveal_strlit("summit");
    }
    push_word(&mut v, "summit");
    proof {
        reveal_strlit("tiger");
    }
    push_word(&mut v, "tiger");
    proof {
        reveal_strlit("umbrella");
    }
    push_word(&mut v, "umbrella");
    proof {
        reveal_strlit("valley");
    }
    push_word(&mut v, "valley");
    proof {
        reveal_strlit("walnut");
    }
    push_word(&mut v, "walnut");
    proof {
        reveal_strlit("zephyr");
    }
    push_word(&mut v, "zephyr");
    v
}

} // verus!

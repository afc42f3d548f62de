//! Short, human-friendly artifact names, never handed out twice while live.
use vstd::prelude::*;

use crate::text::{chars_equal, chars_of, concat_chars, opt_chars, string_of};

verus! {

/// How many candidate names one upload may try before giving up.
pub const MAX_NAME_ATTEMPTS: usize = 10;

pub open spec fn base_char_ok(c: char) -> bool {
    ('a' <= c && c <= 'z') || ('0' <= c && c <= '9') || c == '-'
}

/// A usable base name: non-empty, lower-case letters, digits and dashes only.
pub open spec fn base_name_ok(b: Seq<char>) -> bool {
    b.len() >= 1 && forall|i: int| 0 <= i < b.len() ==> base_char_ok(#[trigger] b[i])
}

/// The stored file name `{base}.{ext}`.
pub open spec fn artifact_name(base: Seq<char>, ext: Seq<char>) -> Seq<char> {
    base + seq!['.'] + ext
}

pub open spec fn distinct(names: Seq<Seq<char>>) -> bool {
    forall|i: int, j: int| 0 <= i < j < names.len() ==> names[i] != names[j]
}

/// The effect of offering `base` for a new artifact with extension `ext`:
/// the live names afterwards, and the name handed out, if any.
pub open spec fn claim_spec(live: Seq<Seq<char>>, base: Seq<char>, ext: Seq<char>) -> (Seq<Seq<char>>, Option<Seq<char>>) {
    let name = artifact_name(base, ext);
    if base_name_ok(base) && !live.contains(name) {
        (live.push(name), Some(name))
    } else {
        (live, None)
    }
}

/// The names of the artifacts that currently exist in one store.
pub struct NameRegistry {
    live: Vec<String>,
}

/// Relies on `fastrand::usize`: a value drawn from `0..n`.
#[verifier::external_body]
fn random_below(n: usize) -> (r: usize)
    requires
        n > 0,
    ensures
        r < n,
{
    fastrand::usize(..n)
}

fn is_base_char(c: char) -> (r: bool)
    ensures
        r == base_char_ok(c),
{
    ('a' <= c && c <= 'z') || ('0' <= c && c <= '9') || c == '-'
}

/// Whether `base` may serve as the base of an artifact name.
pub fn is_base_name(base: &str) -> (r: bool)
    ensures
        r == base_name_ok(base@),
{
    let b = chars_of(base);
    if b.len() == 0 {
        return false;
    }
    let mut i: usize = 0;
    while i < b.len()
        invariant
            i <= b.len(),
            b@ == base@,
            forall|k: int| 0 <= k < i ==> base_char_ok(#[trigger] b@[k]),
        decreases b.len() - i,
    {
        if !is_base_char(b[i]) {
            return false;
        }
        i = i + 1;
    }
    true
}

/// `{base}.{ext}`.
pub fn make_artifact_name(base: &str, ext: &str) -> (r: String)
    ensures
        r@ == artifact_name(base@, ext@),
{
    let b = chars_of(base);
    let dot = chars_of(".");
    proof {
        reveal_strlit(".");
        assert(dot@ =~= seq!['.']);
    }
    let e = chars_of(ext);
    let head = concat_chars(b.as_slice(), dot.as_slice());
    string_of(concat_chars(head.as_slice(), e.as_slice()).as_slice())
}

/// How many words each of the two word lists holds.
pub const WORDS_PER_LIST: usize = 32;

/// The first halves of generated names.
pub open spec fn adjectives() -> Seq<&'static str> {
    seq![
        "amber", "brave", "calm", "dapper", "eager", "fuzzy", "gentle", "happy",
        "icy", "jolly", "keen", "lucky", "mellow", "nimble", "odd", "proud",
        "quiet", "rapid", "shy", "swift", "tidy", "urban", "vivid", "witty",
        "young", "zesty", "bold", "cosy", "dusty", "fancy", "grand", "hazy",
    ]
}

/// The second halves of generated names.
pub open spec fn nouns() -> Seq<&'static str> {
    seq![
        "otter", "badger", "crane", "dingo", "eagle", "ferret", "gecko", "heron",
        "ibis", "jackal", "koala", "lemur", "marten", "newt", "ocelot", "panda",
        "quail", "raven", "stoat", "tapir", "urchin", "vole", "walrus", "yak",
        "zebra", "bison", "camel", "finch", "goose", "hare", "llama", "moose",
    ]
}

pub open spec fn adjective(i: int) -> Seq<char> {
    adjectives()[i]@
}

pub open spec fn noun(j: int) -> Seq<char> {
    nouns()[j]@
}

/// The base name made of adjective `i` and noun `j`, such as `swift-otter`.
pub open spec fn word_name(i: int, j: int) -> Seq<char> {
    adjective(i) + seq!['-'] + noun(j)
}

/// A base name that the word lists can produce.
pub open spec fn is_word_name(b: Seq<char>) -> bool {
    exists|i: int, j: int| 0 <= i < WORDS_PER_LIST && 0 <= j < WORDS_PER_LIST && b == #[trigger] word_name(i, j)
}

/// Every word is lower-case letters only, so every word name is usable.
pub proof fn lemma_word_names_usable(i: int, j: int)
    requires
        0 <= i < WORDS_PER_LIST,
        0 <= j < WORDS_PER_LIST,
    ensures
        base_name_ok(word_name(i, j)),
{
    reveal_strlit("amber");
    reveal_strlit("brave");
    reveal_strlit("calm");
    reveal_strlit("dapper");
    reveal_strlit("eager");
    reveal_strlit("fuzzy");
    reveal_strlit("gentle");
    reveal_strlit("happy");
    reveal_strlit("icy");
    reveal_strlit("jolly");
    reveal_strlit("keen");
    reveal_strlit("lucky");
    reveal_strlit("mellow");
    reveal_strlit("nimble");
    reveal_strlit("odd");
    reveal_strlit("proud");
    reveal_strlit("quiet");
    reveal_strlit("rapid");
    reveal_strlit("shy");
    reveal_strlit("swift");
    reveal_strlit("tidy");
    reveal_strlit("urban");
    reveal_strlit("vivid");
    reveal_strlit("witty");
    reveal_strlit("young");
    reveal_strlit("zesty");
    reveal_strlit("bold");
    reveal_strlit("cosy");
    reveal_strlit("dusty");
    reveal_strlit("fancy");
    reveal_strlit("grand");
    reveal_strlit("hazy");
    reveal_strlit("otter");
    reveal_strlit("badger");
    reveal_strlit("crane");
    reveal_strlit("dingo");
    reveal_strlit("eagle");
    reveal_strlit("ferret");
    reveal_strlit("gecko");
    reveal_strlit("heron");
    reveal_strlit("ibis");
    reveal_strlit("jackal");
    reveal_strlit("koala");
    reveal_strlit("lemur");
    reveal_strlit("marten");
    reveal_strlit("newt");
    reveal_strlit("ocelot");
    reveal_strlit("panda");
    reveal_strlit("quail");
    reveal_strlit("raven");
    reveal_strlit("stoat");
    reveal_strlit("tapir");
    reveal_strlit("urchin");
    reveal_strlit("vole");
    reveal_strlit("walrus");
    reveal_strlit("yak");
    reveal_strlit("zebra");
    reveal_strlit("bison");
    reveal_strlit("camel");
    reveal_strlit("finch");
    reveal_strlit("goose");
    reveal_strlit("hare");
    reveal_strlit("llama");
    reveal_strlit("moose");
    let a = adjective(i);
    let n = noun(j);
    assert(base_name_ok(a));
    assert(base_name_ok(n));
    let w = word_name(i, j);
    assert forall|k: int| 0 <= k < w.len() implies base_char_ok(#[trigger] w[k]) by {
        if k < a.len() {
            assert(w[k] == a[k]);
        } else if k == a.len() {
            assert(w[k] == '-');
        } else {
            assert(w[k] == n[k - a.len() - 1]);
        }
    }
}

fn adjective_word(i: usize) -> (r: &'static str)
    requires
        i < WORDS_PER_LIST,
    ensures
        r@ == adjective(i as int),
{
    let words: Vec<&'static str> = vec![
        "amber", "brave", "calm", "dapper", "eager", "fuzzy", "gentle", "happy",
        "icy", "jolly", "keen", "lucky", "mellow", "nimble", "odd", "proud",
        "quiet", "rapid", "shy", "swift", "tidy", "urban", "vivid", "witty",
        "young", "zesty", "bold", "cosy", "dusty", "fancy", "grand", "hazy",
    ];
    assert(words@ == adjectives());
    words[i]
}

fn noun_word(j: usize) -> (r: &'static str)
    requires
        j < WORDS_PER_LIST,
    ensures
        r@ == noun(j as int),
{
    let words: Vec<&'static str> = vec![
        "otter", "badger", "crane", "dingo", "eagle", "ferret", "gecko", "heron",
        "ibis", "jackal", "koala", "lemur", "marten", "newt", "ocelot", "panda",
        "quail", "raven", "stoat", "tapir", "urchin", "vole", "walrus", "yak",
        "zebra", "bison", "camel", "finch", "goose", "hare", "llama", "moose",
    ];
    assert(words@ == nouns());
    words[j]
}

/// The base name for the draws `a` and `n`: adjective `a`, a dash, noun `n`.
pub fn name_from_draws(a: usize, n: usize) -> (r: String)
    requires
        a < WORDS_PER_LIST,
        n < WORDS_PER_LIST,
    ensures
        r@ == word_name(a as int, n as int),
        base_name_ok(r@),
{
    let first = chars_of(adjective_word(a));
    let dash = chars_of("-");
    proof {
        reveal_strlit("-");
        lemma_word_names_usable(a as int, n as int);
    }
    let second = chars_of(noun_word(n));
    let head = concat_chars(first.as_slice(), dash.as_slice());
    let joined = concat_chars(head.as_slice(), second.as_slice());
    assert(joined@ =~= word_name(a as int, n as int));
    string_of(joined.as_slice())
}

/// A random two-word base name such as `swift-otter`: one adjective and one
/// noun of the word lists, joined by a dash.
pub fn generate() -> (r: String)
    ensures
        is_word_name(r@),
        base_name_ok(r@),
{
    let a = random_below(WORDS_PER_LIST);
    let n = random_below(WORDS_PER_LIST);
    let r = name_from_draws(a, n);
    assert(r@ == word_name(a as int, n as int));
    r
}

impl NameRegistry {
    pub closed spec fn view(&self) -> Seq<Seq<char>> {
        self.live.deep_view()
    }

    /// No name is live twice.
    pub closed spec fn wf(&self) -> bool {
        distinct(self@)
    }

    pub fn new() -> (r: NameRegistry)
        ensures
            r.wf(),
            r@ == Seq::<Seq<char>>::empty(),
    {
        let r = NameRegistry { live: Vec::new() };
        assert(r@ =~= Seq::<Seq<char>>::empty());
        r
    }

    pub fn len(&self) -> (r: usize)
        ensures
            r == self@.len(),
    {
        self.live.len()
    }

    /// Whether an artifact called `name` is live.
    pub fn contains(&self, name: &str) -> (r: bool)
        ensures
            r == self@.contains(name@),
    {
        let target = chars_of(name);
        let mut i: usize = 0;
        while i < self.live.len()
            invariant
                i <= self.live@.len(),
                target@ == name@,
                forall|k: int| 0 <= k < i ==> self@[k] != name@,
            decreases self.live.len() - i,
        {
            let here = chars_of(self.live[i].as_str());
            if chars_equal(here.as_slice(), target.as_slice()) {
                assert(self@[i as int] == name@);
                return true;
            }
            i = i + 1;
        }
        false
    }

    /// Hands out `{base}.{ext}` when `base` is usable and no live artifact has
    /// that name, recording it as live; otherwise changes nothing.
    pub fn claim(&mut self, base: &str, ext: &str) -> (r: Option<String>)
        requires
            old(self).wf(),
        ensures
            final(self).wf(),
            (final(self)@, opt_chars(r)) == claim_spec(old(self)@, base@, ext@),
    {
        if !is_base_name(base) {
            return None;
        }
        let name = make_artifact_name(base, ext);
        if self.contains(name.as_str()) {
            return None;
        }
        let ghost before = self@;
        self.live.push(name.clone());
        assert(self@ =~= before.push(name@));
        Some(name)
    }

    /// Forgets the artifact called `name`, if it is live.
    pub fn release(&mut self, name: &str)
        requires
            old(self).wf(),
        ensures
            final(self).wf(),
            !final(self)@.contains(name@),
            forall|x: Seq<char>| x != name@ ==> (final(self)@.contains(x) <==> old(self)@.contains(x)),
    {
        let target = chars_of(name);
        let mut i: usize = 0;
        while i < self.live.len()
            invariant
                i <= self.live@.len(),
                target@ == name@,
                self.wf(),
                self@ == old(self)@,
                forall|k: int| 0 <= k < i ==> self@[k] != name@,
            decreases self.live.len() - i,
        {
            let here = chars_of(self.live[i].as_str());
            if chars_equal(here.as_slice(), target.as_slice()) {
                let ghost before = self@;
                self.live.remove(i);
                assert(self@ =~= before.remove(i as int));
                assert forall|x: Seq<char>| x != name@ implies (self@.contains(x) <==> before.contains(x)) by {
                    if before.contains(x) {
                        let k = choose|k: int| 0 <= k < before.len() && before[k] == x;
                        if k < i {
                            assert(self@[k] == x);
                        } else {
                            assert(k > i);
                            assert(self@[k - 1] == x);
                        }
                    }
                }
                assert forall|k: int| 0 <= k < self@.len() implies self@[k] != name@ by {
                    if k < i {
                        assert(self@[k] == before[k]);
                    } else {
                        assert(self@[k] == before[k + 1]);
                        assert(before[i as int] == name@);
                        assert(before[i as int] != before[k + 1]);
                    }
                }
                assert forall|a: int, b: int| 0 <= a < b < self@.len() implies self@[a] != self@[b] by {
                    let a2 = if a < i { a } else { a + 1 };
                    let b2 = if b < i { b } else { b + 1 };
                    assert(self@[a] == before[a2]);
                    assert(self@[b] == before[b2]);
                }
                return;
            }
            i = i + 1;
        }
    }

    /// Draws base names until one yields a name that no live artifact has, at
    /// most `MAX_NAME_ATTEMPTS` times; the name handed out is then live. It
    /// succeeds whenever some usable base is free for `ext`; `None` means that
    /// `MAX_NAME_ATTEMPTS` drawn names were all live already.
    pub fn generate_unique(&mut self, ext: &str) -> (r: Option<String>)
        requires
            old(self).wf(),
        ensures
            final(self).wf(),
            match r {
                Some(name) => exists|base: Seq<char>|
                    is_word_name(base) && base_name_ok(base) && #[trigger] artifact_name(base, ext@) == name@
                        && !old(self)@.contains(name@)
                        && final(self)@ == old(self)@.push(name@),
                None => final(self)@ == old(self)@,
            },
            (forall|b: Seq<char>| base_name_ok(b) ==> !old(self)@.contains(#[trigger] artifact_name(b, ext@)))
                ==> r is Some,
            r is None ==> exists|drawn: Seq<Seq<char>>|
                drawn.len() == MAX_NAME_ATTEMPTS && forall|k: int| 0 <= k < drawn.len()
                    ==> is_word_name(#[trigger] drawn[k]) && old(self)@.contains(artifact_name(drawn[k], ext@)),
    {
        let ghost drawn: Seq<Seq<char>> = Seq::empty();
        let mut attempt: usize = 0;
        while attempt < MAX_NAME_ATTEMPTS
            invariant
                self.wf(),
                self@ == old(self)@,
                drawn.len() == attempt,
                attempt <= MAX_NAME_ATTEMPTS,
                forall|k: int| 0 <= k < drawn.len()
                    ==> is_word_name(#[trigger] drawn[k]) && old(self)@.contains(artifact_name(drawn[k], ext@)),
                attempt > 0 ==> exists|b: Seq<char>| base_name_ok(b) && old(self)@.contains(#[trigger] artifact_name(b, ext@)),
            decreases MAX_NAME_ATTEMPTS - attempt,
        {
            let base = generate();
            let got = self.claim(base.as_str(), ext);
            if got.is_some() {
                assert(artifact_name(base@, ext@) == got->0@);
                return got;
            }
            proof {
                assert(old(self)@.contains(artifact_name(base@, ext@)));
                let ghost prev = drawn;
                drawn = drawn.push(base@);
                assert forall|k: int| 0 <= k < drawn.len()
                    implies is_word_name(#[trigger] drawn[k]) && old(self)@.contains(artifact_name(drawn[k], ext@)) by {
                    if k < prev.len() {
                        assert(drawn[k] == prev[k]);
                    }
                }
            }
            attempt = attempt + 1;
        }
        None
    }
}

/// Two names handed out one after the other by the same registry differ, and
/// both are live afterwards.
pub proof fn lemma_claims_are_unique(
    live: Seq<Seq<char>>,
    base1: Seq<char>,
    ext1: Seq<char>,
    base2: Seq<char>,
    ext2: Seq<char>,
)
    requires
        distinct(live),
        claim_spec(live, base1, ext1).1 is Some,
        claim_spec(claim_spec(live, base1, ext1).0, base2, ext2).1 is Some,
    ensures
        claim_spec(live, base1, ext1).1 != claim_spec(claim_spec(live, base1, ext1).0, base2, ext2).1,
        ({
            let after = claim_spec(claim_spec(live, base1, ext1).0, base2, ext2).0;
            &&& after.contains(artifact_name(base1, ext1))
            &&& after.contains(artifact_name(base2, ext2))
            &&& distinct(after)
        }),
{
    let mid = claim_spec(live, base1, ext1).0;
    let after = claim_spec(mid, base2, ext2).0;
    assert(mid[live.len() as int] == artifact_name(base1, ext1));
    assert(after[mid.len() as int] == artifact_name(base2, ext2));
    assert(after[live.len() as int] == artifact_name(base1, ext1));
}

} // verus!

use vstd::prelude::*;
use crate::position::Position;

verus! {

/// A lexical unit of buffer content, as handed over by the host's
/// tokenizer: its text and the position at which it starts. Tokens are
/// read-only to the controller; it only ever reads their positions.
pub struct Token {
    pub text: String,
    pub position: Position,
}

/// One jump label: the tag the user can type and the position it leads to.
pub struct TagEntry {
    pub tag: Vec<char>,
    pub position: Position,
}

/// The labels generated for one render pass, in token order.
pub struct TagMap {
    pub entries: Vec<TagEntry>,
}

/// The lowercase letter standing for the base-26 digit `d`.
pub open spec fn letter(d: int) -> char {
    ((97 + d) as u8) as char
}

/// 26 raised to the power `k`: how many distinct tags of length `k` exist.
pub open spec fn pow26(k: nat) -> nat
    decreases k,
{
    if k == 0 {
        1
    } else {
        26 * pow26((k - 1) as nat)
    }
}

/// The common length of the tags generated for `n` tokens: at least two
/// letters (single-letter tags could never be typed, since resolution
/// starts only at two accumulated characters), and long enough that the
/// 26^len distinct labels cover all `n` tokens.
pub open spec fn tag_len(n: nat) -> nat
    decreases n,
{
    if n <= 676 {
        2
    } else {
        1 + tag_len(((n - 1) / 26 + 1) as nat)
    }
}

/// The tag for the token at ordinal index `i`: the base-26 numeral of
/// `i`, written with lowercase letters and padded to exactly `len`
/// letters, most significant letter first.
pub open spec fn tag_of(i: nat, len: nat) -> Seq<char>
    decreases len,
{
    if len == 0 {
        Seq::empty()
    } else {
        tag_of(i / 26, (len - 1) as nat).push(letter((i % 26) as int))
    }
}

/// A generated tag set is a faithful labelling of a token sequence:
/// one entry per token, in order, each carrying that token's position
/// and the tag of its ordinal index.
pub open spec fn well_tagged(entries: Seq<TagEntry>, tokens: Seq<Token>) -> bool {
    &&& entries.len() == tokens.len()
    &&& forall|k: int|
        0 <= k < entries.len() ==> #[trigger] entries[k].tag@ == tag_of(
            k as nat,
            tag_len(tokens.len()),
        ) && entries[k].position == tokens[k].position
}

/// An exact first-match lookup of `input` among the entries' tags.
pub open spec fn lookup(entries: Seq<TagEntry>, input: Seq<char>) -> Option<Position>
    decreases entries.len(),
{
    if entries.len() == 0 {
        None
    } else if entries[0].tag@ == input {
        Some(entries[0].position)
    } else {
        lookup(entries.drop_first(), input)
    }
}

proof fn lemma_pow26_13()
    ensures
        pow26(13) == 2481152873203736576,
{
    assert(pow26(0) == 1);
    assert(pow26(1) == 26);
    assert(pow26(2) == 676);
    assert(pow26(3) == 17576);
    assert(pow26(4) == 456976);
    assert(pow26(5) == 11881376);
    assert(pow26(6) == 308915776);
    assert(pow26(7) == 8031810176);
    assert(pow26(8) == 208827064576);
    assert(pow26(9) == 5429503678976);
    assert(pow26(10) == 141167095653376);
    assert(pow26(11) == 3670344486987776);
    assert(pow26(12) == 95428956661682176);
    assert(pow26(13) == 2481152873203736576);
}

/// Tag length grows only logarithmically: n tokens within 676 * 26^k
/// need at most 2 + k letters.
proof fn lemma_tag_len_le(n: nat, k: nat)
    requires
        n <= 676 * pow26(k),
    ensures
        tag_len(n) <= 2 + k,
    decreases n,
{
    if n <= 676 {
    } else {
        assert(pow26(0) == 1);
        assert(k >= 1);
        let m = ((n - 1) / 26 + 1) as nat;
        assert(pow26(k) == 26 * pow26((k - 1) as nat));
        assert(m <= 676 * pow26((k - 1) as nat));
        lemma_tag_len_le(m, (k - 1) as nat);
    }
}

/// The generated tag length always offers at least as many distinct
/// labels as there are tokens.
pub proof fn lemma_tag_len_covers(n: nat)
    ensures
        tag_len(n) >= 2,
        pow26(tag_len(n)) >= n,
    decreases n,
{
    if n <= 676 {
        assert(pow26(0) == 1);
        assert(pow26(1) == 26);
        assert(pow26(2) == 676);
    } else {
        let m = ((n - 1) / 26 + 1) as nat;
        lemma_tag_len_covers(m);
        assert(pow26(1 + tag_len(m)) == 26 * pow26(tag_len(m)));
        assert(26 * m >= n);
    }
}

/// Every tag has exactly the requested length.
pub proof fn lemma_tag_of_len(i: nat, len: nat)
    ensures
        tag_of(i, len).len() == len,
    decreases len,
{
    if len > 0 {
        lemma_tag_of_len(i / 26, (len - 1) as nat);
    }
}

/// Distinct ordinals below 26^len receive distinct tags.
pub proof fn lemma_tag_of_injective(i: nat, j: nat, len: nat)
    requires
        i < pow26(len),
        j < pow26(len),
        i != j,
    ensures
        tag_of(i, len) != tag_of(j, len),
    decreases len,
{
    if len == 0 {
        assert(pow26(0) == 1);
    } else {
        lemma_tag_of_len(i / 26, (len - 1) as nat);
        lemma_tag_of_len(j / 26, (len - 1) as nat);
        let ti = tag_of(i, len);
        let tj = tag_of(j, len);
        assert(ti[len - 1] == letter((i % 26) as int));
        assert(tj[len - 1] == letter((j % 26) as int));
        if i % 26 != j % 26 {
            assert(letter((i % 26) as int) as u8 != letter((j % 26) as int) as u8);
            assert(ti[len - 1] != tj[len - 1]);
        } else {
            assert(i == 26 * (i / 26) + i % 26);
            assert(j == 26 * (j / 26) + j % 26);
            assert(i / 26 != j / 26);
            assert(pow26(len) == 26 * pow26((len - 1) as nat));
            assert(i / 26 < pow26((len - 1) as nat));
            assert(j / 26 < pow26((len - 1) as nat));
            lemma_tag_of_injective(i / 26, j / 26, (len - 1) as nat);
            let pi = tag_of(i / 26, (len - 1) as nat);
            let pj = tag_of(j / 26, (len - 1) as nat);
            if ti == tj {
                assert forall|k: int| 0 <= k < pi.len() implies pi[k] == pj[k] by {
                    assert(ti[k] == pi[k]);
                    assert(tj[k] == pj[k]);
                }
                assert(pi =~= pj);
            }
        }
    }
}

/// The letter for a single base-26 digit.
fn letter_exec(d: usize) -> (c: char)
    requires
        d < 26,
    ensures
        c == letter(d as int),
{
    (97 + d as u8) as char
}

/// The tag for ordinal index `i`, written out as characters.
fn tag_chars(i: usize, len: usize) -> (r: Vec<char>)
    ensures
        r@ == tag_of(i as nat, len as nat),
    decreases len,
{
    if len == 0 {
        Vec::new()
    } else {
        let mut r = tag_chars(i / 26, len - 1);
        r.push(letter_exec(i % 26));
        r
    }
}

/// The length used for the tags of `n` tokens.
fn tag_len_exec(n: usize) -> (r: usize)
    ensures
        r as nat == tag_len(n as nat),
        r >= 2,
    decreases n,
{
    if n <= 676 {
        2
    } else {
        let m = (n - 1) / 26 + 1;
        let t = tag_len_exec(m);
        proof {
            lemma_pow26_13();
            assert(m as nat <= 676 * pow26(13));
            lemma_tag_len_le(m as nat, 13);
        }
        1 + t
    }
}

/// Assigns one tag to each token, in order: the base-26 label of the
/// token's ordinal index, every label of the same length, so that no tag
/// is a prefix of another and all are pairwise distinct.
pub fn generate(tokens: &Vec<Token>) -> (r: TagMap)
    ensures
        well_tagged(r.entries@, tokens@),
{
    let len = tag_len_exec(tokens.len());
    let mut entries: Vec<TagEntry> = Vec::new();
    let mut i: usize = 0;
    while i < tokens.len()
        invariant
            i <= tokens.len(),
            len as nat == tag_len(tokens@.len()),
            entries@.len() == i as nat,
            forall|k: int|
                0 <= k < i ==> #[trigger] entries@[k].tag@ == tag_of(k as nat, tag_len(tokens@.len()))
                    && entries@[k].position == tokens@[k].position,
        decreases tokens.len() - i,
    {
        let tag = tag_chars(i, len);
        entries.push(TagEntry { tag, position: tokens[i].position });
        i += 1;
    }
    TagMap { entries }
}

/// Character-by-character equality of two character vectors.
fn chars_eq(a: &Vec<char>, b: &Vec<char>) -> (r: bool)
    ensures
        r == (a@ == b@),
{
    if a.len() != b.len() {
        return false;
    }
    let mut i: usize = 0;
    while i < a.len()
        invariant
            i <= a.len(),
            a@.len() == b@.len(),
            forall|k: int| 0 <= k < i ==> a@[k] == b@[k],
        decreases a.len() - i,
    {
        if a[i] != b[i] {
            return false;
        }
        i += 1;
    }
    proof {
        assert(a@ =~= b@);
    }
    true
}

/// Resolves accumulated jump input against the current tag set: the
/// position of the first entry whose tag equals the input exactly, if
/// any. This is a single exact lookup, not a prefix search.
pub fn match_tag(input: &Vec<char>, tags: &TagMap) -> (r: Option<Position>)
    ensures
        r == lookup(tags.entries@, input@),
{
    let mut i: usize = 0;
    proof {
        assert(tags.entries@.skip(0) =~= tags.entries@);
    }
    while i < tags.entries.len()
        invariant
            i <= tags.entries.len(),
            lookup(tags.entries@, input@) == lookup(tags.entries@.skip(i as int), input@),
        decreases tags.entries.len() - i,
    {
        if chars_eq(&tags.entries[i].tag, input) {
            proof {
                assert(tags.entries@.skip(i as int)[0] == tags.entries@[i as int]);
            }
            return Some(tags.entries[i].position);
        }
        proof {
            assert(tags.entries@.skip(i as int)[0] == tags.entries@[i as int]);
            assert(tags.entries@.skip(i as int).drop_first() =~= tags.entries@.skip(i as int + 1));
        }
        i += 1;
    }
    proof {
        assert(tags.entries@.skip(i as int).len() == 0);
    }
    None
}

/// A first-match scan finds the entry at `i` when no earlier entry's tag
/// equals the input.
proof fn lemma_lookup_finds(entries: Seq<TagEntry>, input: Seq<char>, i: int)
    requires
        0 <= i < entries.len(),
        entries[i].tag@ == input,
        forall|m: int| 0 <= m < i ==> entries[m].tag@ != input,
    ensures
        lookup(entries, input) == Some(entries[i].position),
    decreases i,
{
    if i == 0 {
    } else {
        assert(entries[0].tag@ != input);
        let rest = entries.drop_first();
        assert forall|m: int| 0 <= m < i - 1 implies rest[m].tag@ != input by {
            assert(rest[m] == entries[m + 1]);
        }
        assert(rest[i - 1] == entries[i]);
        lemma_lookup_finds(rest, input, i - 1);
    }
}

/// A scan over entries none of whose tags equals the input finds nothing.
proof fn lemma_lookup_none(entries: Seq<TagEntry>, input: Seq<char>)
    requires
        forall|m: int| 0 <= m < entries.len() ==> entries[m].tag@ != input,
    ensures
        lookup(entries, input) is None,
    decreases entries.len(),
{
    if entries.len() > 0 {
        let rest = entries.drop_first();
        assert forall|m: int| 0 <= m < rest.len() implies rest[m].tag@ != input by {
            assert(rest[m] == entries[m + 1]);
        }
        lemma_lookup_none(rest, input);
    }
}

/// Prefix stability: a strict prefix of a tag never resolves to
/// anything. All tags of one generation pass share a single length, so
/// an accumulator still shorter than that length matches no tag at all,
/// and typing towards one tag can never land on another.
pub proof fn lemma_prefix_never_resolves(
    entries: Seq<TagEntry>,
    tokens: Seq<Token>,
    input: Seq<char>,
)
    requires
        well_tagged(entries, tokens),
        input.len() < tag_len(tokens.len()),
    ensures
        lookup(entries, input) is None,
{
    assert forall|m: int| 0 <= m < entries.len() implies entries[m].tag@ != input by {
        lemma_tag_of_len(m as nat, tag_len(tokens.len()));
    }
    lemma_lookup_none(entries, input);
}

/// Tag uniqueness: within one generation pass, distinct tokens always
/// receive distinct tags.
pub proof fn lemma_tags_pairwise_distinct(
    entries: Seq<TagEntry>,
    tokens: Seq<Token>,
    i: int,
    j: int,
)
    requires
        well_tagged(entries, tokens),
        0 <= i < entries.len(),
        0 <= j < entries.len(),
        i != j,
    ensures
        entries[i].tag@ != entries[j].tag@,
{
    lemma_tag_len_covers(tokens.len());
    lemma_tag_of_injective(i as nat, j as nat, tag_len(tokens.len()));
}

/// Round trip: looking up the very tag generated for a token resolves to
/// exactly that token's position.
pub proof fn lemma_tag_round_trip(entries: Seq<TagEntry>, tokens: Seq<Token>, i: int)
    requires
        well_tagged(entries, tokens),
        0 <= i < entries.len(),
    ensures
        lookup(entries, entries[i].tag@) == Some(tokens[i].position),
{
    assert forall|m: int| 0 <= m < i implies entries[m].tag@ != entries[i].tag@ by {
        lemma_tags_pairwise_distinct(entries, tokens, m, i);
    }
    lemma_lookup_finds(entries, entries[i].tag@, i);
}

} // verus!

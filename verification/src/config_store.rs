//! The database config document (`config.json`) and its store: a small
//! JSON object with advisory blocking flags, written by staging a new
//! document and renaming it over the live one, and cached in memory as a
//! snapshot that is only committed once the rename succeeded.

use vstd::prelude::*;

use crate::error::Error;
use crate::json::{
    char_is_ws, chars_of, escape_into, lemma_escape_plain, lemma_lit_at_split, lit_at,
    parse_str_body, push_chars, skip_value, skip_ws, spec_escape_string, spec_ws_end,
    str_encodes_at, string_from,
};

verus! {

/// Mathematical model of a config document.
pub ghost struct ConfigV {
    pub block_reads: bool,
    pub block_writes: bool,
    pub block_reason: Option<Seq<char>>,
}

/// Advisory operation-blocking flags, persisted as `config.json`. When a
/// flag is set, operations of that kind fail with `Error::Blocked`
/// carrying the reason.
pub struct DatabaseConfig {
    pub block_reads: bool,
    pub block_writes: bool,
    /// The reason why operations are blocked.
    pub block_reason: Option<String>,
}

impl View for DatabaseConfig {
    type V = ConfigV;

    open spec fn view(&self) -> ConfigV {
        ConfigV {
            block_reads: self.block_reads,
            block_writes: self.block_writes,
            block_reason: match self.block_reason {
                Some(s) => Some(s@),
                None => None,
            },
        }
    }
}

impl Default for DatabaseConfig {
    /// Nothing blocked and no reason.
    fn default() -> (r: DatabaseConfig)
        ensures
            !r.block_reads,
            !r.block_writes,
            r.block_reason is None,
    {
        DatabaseConfig { block_reads: false, block_writes: false, block_reason: None }
    }
}

impl Clone for DatabaseConfig {
    fn clone(&self) -> (r: Self)
        ensures
            r@ == self@,
    {
        DatabaseConfig {
            block_reads: self.block_reads,
            block_writes: self.block_writes,
            block_reason: match &self.block_reason {
                Some(s) => Some(s.clone()),
                None => None,
            },
        }
    }
}

/// The literal for a boolean.
pub open spec fn spec_bool_lit(b: bool) -> Seq<char> {
    if b {
        "true"@
    } else {
        "false"@
    }
}

/// How the writer renders the reason: `null` or a quoted escaped string.
pub open spec fn spec_enc_reason(rs: Option<Seq<char>>) -> Seq<char> {
    match rs {
        None => "null"@,
        Some(t) => seq!['"'] + (spec_escape_string(t) + seq!['"']),
    }
}

/// The document from the `block_reason` member on.
pub open spec fn spec_enc_tail3(rs: Option<Seq<char>>) -> Seq<char> {
    "\"block_reason\":"@ + (spec_enc_reason(rs) + "}"@)
}

/// The document from the `block_writes` member on.
pub open spec fn spec_enc_tail2(wr: bool, rs: Option<Seq<char>>) -> Seq<char> {
    "\"block_writes\":"@ + (spec_bool_lit(wr) + (","@ + spec_enc_tail3(rs)))
}

/// The document from the `block_reads` member on.
pub open spec fn spec_enc_tail1(rd: bool, wr: bool, rs: Option<Seq<char>>) -> Seq<char> {
    "\"block_reads\":"@ + (spec_bool_lit(rd) + (","@ + spec_enc_tail2(wr, rs)))
}

/// The document the writer produces for a config: all three members in a
/// fixed order, compact.
pub open spec fn spec_encode_config(v: ConfigV) -> Seq<char> {
    "{"@ + spec_enc_tail1(v.block_reads, v.block_writes, v.block_reason)
}

/// The document suffix from the `block_reason` member on, when present,
/// else just the closing brace.
pub open spec fn spec_enc_suffix3(has_rs: bool, rs: Option<Seq<char>>) -> Seq<char> {
    if has_rs {
        spec_enc_tail3(rs)
    } else {
        "}"@
    }
}

/// The document suffix from the `block_writes` member on, for whichever
/// later members are present.
pub open spec fn spec_enc_suffix2(
    has_wr: bool,
    wr: bool,
    has_rs: bool,
    rs: Option<Seq<char>>,
) -> Seq<char> {
    if has_wr {
        if has_rs {
            spec_enc_tail2(wr, rs)
        } else {
            "\"block_writes\":"@ + (spec_bool_lit(wr) + "}"@)
        }
    } else {
        spec_enc_suffix3(has_rs, rs)
    }
}

/// The document suffix from the `block_reads` member on, for whichever
/// members are present.
pub open spec fn spec_enc_suffix1(
    has_rd: bool,
    rd: bool,
    has_wr: bool,
    wr: bool,
    has_rs: bool,
    rs: Option<Seq<char>>,
) -> Seq<char> {
    if has_rd {
        if has_wr || has_rs {
            "\"block_reads\":"@ + (spec_bool_lit(rd) + (","@ + spec_enc_suffix2(
                has_wr,
                wr,
                has_rs,
                rs,
            )))
        } else {
            "\"block_reads\":"@ + (spec_bool_lit(rd) + "}"@)
        }
    } else {
        spec_enc_suffix2(has_wr, wr, has_rs, rs)
    }
}

/// A compact document holding exactly the flagged members, in the
/// writer's member order. With all three present this is the writer's own
/// document; with members absent it is what an older writer, unaware of
/// them, would have produced.
pub open spec fn spec_encode_subset(
    has_rd: bool,
    rd: bool,
    has_wr: bool,
    wr: bool,
    has_rs: bool,
    rs: Option<Seq<char>>,
) -> Seq<char> {
    "{"@ + spec_enc_suffix1(has_rd, rd, has_wr, wr, has_rs, rs)
}

/// One member with an arbitrary key and an arbitrary string value, in the
/// writer's escaping: what a newer writer, aware of more members, might
/// put into the document.
pub open spec fn spec_enc_unknown_member(k: Seq<char>, w: Seq<char>) -> Seq<char> {
    seq!['"'] + (spec_escape_string(k) + (seq!['"'] + (seq![':'] + (seq!['"']
        + (spec_escape_string(w) + seq!['"'])))))
}

/// The writer's document with one unknown string-valued member inserted
/// in front of the known ones.
pub open spec fn spec_encode_with_unknown(k: Seq<char>, w: Seq<char>, v: ConfigV) -> Seq<char> {
    "{"@ + (spec_enc_unknown_member(k, w) + (","@ + spec_enc_tail1(
        v.block_reads,
        v.block_writes,
        v.block_reason,
    )))
}

/// The key is none of the known members.
pub open spec fn unknown_key(k: Seq<char>) -> bool {
    k != "block_reads"@ && k != "block_writes"@ && k != "block_reason"@
}

/// The colon position of an unknown member starting at `i`.
pub open spec fn unk_colon_pos(i: int, k: Seq<char>) -> int {
    i + 1 + spec_escape_string(k).len() + 1
}

/// The position just past an unknown member's string value.
pub open spec fn unk_after_pos(i: int, k: Seq<char>, w: Seq<char>) -> int {
    unk_colon_pos(i, k) + 2 + spec_escape_string(w).len() + 1
}

/// What an unknown string-valued member followed by a comma and further
/// members forces.
proof fn lemma_unknown_member_facts(
    s: Seq<char>,
    i: int,
    k: Seq<char>,
    w: Seq<char>,
    rest: Seq<char>,
)
    requires
        suffix_is(s, i, spec_enc_unknown_member(k, w) + (","@ + rest)),
    ensures
        s[i] == '"',
        str_encodes_at(s, i + 1, k),
        s[unk_colon_pos(i, k)] == ':',
        s[unk_colon_pos(i, k) + 1] == '"',
        str_encodes_at(s, unk_colon_pos(i, k) + 2, w),
        s[unk_after_pos(i, k, w)] == ',',
        suffix_is(s, unk_after_pos(i, k, w) + 1, rest),
{
    reveal_strlit(",");
    let unk = spec_enc_unknown_member(k, w);
    lemma_suffix_split(s, i, unk, ","@ + rest);
    lemma_suffix_split(s, i + unk.len(), ","@, rest);
    lemma_lit_at_index(s, i + unk.len(), ","@, 0);
    lemma_lit_at_split(s, i, seq!['"'], spec_escape_string(k) + (seq!['"'] + (seq![':'] + (
    seq!['"'] + (spec_escape_string(w) + seq!['"'])))));
    lemma_lit_at_index(s, i, seq!['"'], 0);
    let ek = spec_escape_string(k);
    let ew = spec_escape_string(w);
    assert(ek + (seq!['"'] + (seq![':'] + (seq!['"'] + (ew + seq!['"'])))) =~= (ek + seq!['"']) + (
    seq![':'] + (seq!['"'] + (ew + seq!['"']))));
    lemma_lit_at_split(s, i + 1, ek + seq!['"'], seq![':'] + (seq!['"'] + (ew + seq!['"'])));
    let pc = unk_colon_pos(i, k);
    lemma_lit_at_split(s, pc, seq![':'], seq!['"'] + (ew + seq!['"']));
    lemma_lit_at_index(s, pc, seq![':'], 0);
    lemma_lit_at_split(s, pc + 1, seq!['"'], ew + seq!['"']);
    lemma_lit_at_index(s, pc + 1, seq!['"'], 0);
    assert(unk.len() == unk_after_pos(i, k, w) - i) by {
        assert(unk =~= seq!['"'] + (ek + (seq!['"'] + (seq![':'] + (seq!['"'] + (ew
            + seq!['"']))))));
    }
}

/// The value of a member that may be absent; an absent member defaults.
pub open spec fn pick_bool(has: bool, b: bool) -> bool {
    has && b
}

/// The reason of a document that may lack the member; absent defaults.
pub open spec fn pick_reason(has: bool, rs: Option<Seq<char>>) -> Option<Seq<char>> {
    if has {
        rs
    } else {
        None
    }
}

/// A decoded-so-far member value, or the default when it never appeared.
pub open spec fn opt_or_false(o: Option<bool>) -> bool {
    match o {
        Some(b) => b,
        None => false,
    }
}

impl DatabaseConfig {
    /// Serialize to the JSON document the store persists.
    #[verifier::rlimit(100)]
    pub fn to_json(&self) -> (r: String)
        ensures
            r@ == spec_encode_config(self@),
    {
        let mut out: Vec<char> = Vec::new();
        push_chars(&mut out, "{");
        push_chars(&mut out, "\"block_reads\":");
        if self.block_reads {
            push_chars(&mut out, "true");
        } else {
            push_chars(&mut out, "false");
        }
        push_chars(&mut out, ",");
        push_chars(&mut out, "\"block_writes\":");
        if self.block_writes {
            push_chars(&mut out, "true");
        } else {
            push_chars(&mut out, "false");
        }
        push_chars(&mut out, ",");
        push_chars(&mut out, "\"block_reason\":");
        match &self.block_reason {
            None => {
                push_chars(&mut out, "null");
            },
            Some(t) => {
                out.push('"');
                escape_into(&mut out, t.as_str());
                out.push('"');
            },
        }
        push_chars(&mut out, "}");
        proof {
            assert(out@ =~= spec_encode_config(self@));
        }
        string_from(&out)
    }
}

/// The rest of `s` from `i` on is exactly `t`.
pub open spec fn suffix_is(s: Seq<char>, i: int, t: Seq<char>) -> bool {
    lit_at(s, i, t) && i + t.len() == s.len()
}

/// A suffix match of a concatenation is a literal match of the head and a
/// suffix match of the tail.
proof fn lemma_suffix_split(s: Seq<char>, i: int, a: Seq<char>, b: Seq<char>)
    requires
        suffix_is(s, i, a + b),
    ensures
        lit_at(s, i, a),
        suffix_is(s, i + a.len(), b),
{
    lemma_lit_at_split(s, i, a, b);
}

/// A literal match pins each character down.
proof fn lemma_lit_at_index(s: Seq<char>, i: int, lit: Seq<char>, k: int)
    requires
        lit_at(s, i, lit),
        0 <= k < lit.len(),
    ensures
        s[i + k] == lit[k],
{
    assert(s[i + k] == s.subrange(i, i + lit.len())[k]);
}

/// A literal match of a part of a matched literal.
proof fn lemma_lit_at_sub(s: Seq<char>, i: int, lit: Seq<char>, a: int, b: int)
    requires
        lit_at(s, i, lit),
        0 <= a <= b <= lit.len(),
    ensures
        lit_at(s, i + a, lit.subrange(a, b)),
{
    assert(s.subrange(i + a, i + b) =~= lit.subrange(a, b)) by {
        assert forall|k: int| 0 <= k < b - a implies s.subrange(i + a, i + b)[k] == lit.subrange(
            a,
            b,
        )[k] by {
            assert(s.subrange(i, i + lit.len())[a + k] == lit[a + k]);
        }
    }
}

/// Peeling the `block_reads` key off a document suffix.
proof fn lemma_reads_key_facts(s: Seq<char>, i: int, rest: Seq<char>)
    requires
        suffix_is(s, i, "\"block_reads\":"@ + rest),
    ensures
        i + 14 <= s.len(),
        s[i] == '"',
        spec_escape_string("block_reads"@) == "block_reads"@,
        str_encodes_at(s, i + 1, "block_reads"@),
        s[i + 13] == ':',
        suffix_is(s, i + 14, rest),
{
    reveal_strlit("\"block_reads\":");
    reveal_strlit("block_reads");
    let key = "\"block_reads\":"@;
    lemma_suffix_split(s, i, key, rest);
    lemma_lit_at_index(s, i, key, 0);
    lemma_lit_at_index(s, i, key, 13);
    lemma_escape_plain("block_reads"@);
    lemma_lit_at_sub(s, i, key, 1, 14);
    assert(key.subrange(1, 14) =~= "block_reads"@ + seq!['"'] + seq![':']);
    lemma_lit_at_split(s, i + 1, "block_reads"@ + seq!['"'], seq![':']);
    assert(spec_escape_string("block_reads"@) + seq!['"'] =~= "block_reads"@ + seq!['"']);
}

/// Peeling the `block_writes` key off a document suffix.
proof fn lemma_writes_key_facts(s: Seq<char>, i: int, rest: Seq<char>)
    requires
        suffix_is(s, i, "\"block_writes\":"@ + rest),
    ensures
        i + 15 <= s.len(),
        s[i] == '"',
        spec_escape_string("block_writes"@) == "block_writes"@,
        str_encodes_at(s, i + 1, "block_writes"@),
        s[i + 14] == ':',
        suffix_is(s, i + 15, rest),
{
    reveal_strlit("\"block_writes\":");
    reveal_strlit("block_writes");
    let key = "\"block_writes\":"@;
    lemma_suffix_split(s, i, key, rest);
    lemma_lit_at_index(s, i, key, 0);
    lemma_lit_at_index(s, i, key, 14);
    lemma_escape_plain("block_writes"@);
    lemma_lit_at_sub(s, i, key, 1, 15);
    assert(key.subrange(1, 15) =~= "block_writes"@ + seq!['"'] + seq![':']);
    lemma_lit_at_split(s, i + 1, "block_writes"@ + seq!['"'], seq![':']);
    assert(spec_escape_string("block_writes"@) + seq!['"'] =~= "block_writes"@ + seq!['"']);
}

/// Peeling the `block_reason` key off a document suffix.
proof fn lemma_reason_key_facts(s: Seq<char>, i: int, rest: Seq<char>)
    requires
        suffix_is(s, i, "\"block_reason\":"@ + rest),
    ensures
        i + 15 <= s.len(),
        s[i] == '"',
        spec_escape_string("block_reason"@) == "block_reason"@,
        str_encodes_at(s, i + 1, "block_reason"@),
        s[i + 14] == ':',
        suffix_is(s, i + 15, rest),
{
    reveal_strlit("\"block_reason\":");
    reveal_strlit("block_reason");
    let key = "\"block_reason\":"@;
    lemma_suffix_split(s, i, key, rest);
    lemma_lit_at_index(s, i, key, 0);
    lemma_lit_at_index(s, i, key, 14);
    lemma_escape_plain("block_reason"@);
    lemma_lit_at_sub(s, i, key, 1, 15);
    assert(key.subrange(1, 15) =~= "block_reason"@ + seq!['"'] + seq![':']);
    lemma_lit_at_split(s, i + 1, "block_reason"@ + seq!['"'], seq![':']);
    assert(spec_escape_string("block_reason"@) + seq!['"'] =~= "block_reason"@ + seq!['"']);
}

/// What the document shape from the `block_reads` member on forces.
proof fn lemma_tail1_facts(s: Seq<char>, i: int, rd: bool, wr: bool, rs: Option<Seq<char>>)
    requires
        suffix_is(s, i, spec_enc_tail1(rd, wr, rs)),
    ensures
        i + 14 <= s.len(),
        s[i] == '"',
        spec_escape_string("block_reads"@) == "block_reads"@,
        str_encodes_at(s, i + 1, "block_reads"@),
        s[i + 13] == ':',
        suffix_is(s, i + 14, spec_bool_lit(rd) + (","@ + spec_enc_tail2(wr, rs))),
{
    lemma_reads_key_facts(s, i, spec_bool_lit(rd) + (","@ + spec_enc_tail2(wr, rs)));
}

/// What the document shape from the `block_writes` member on forces.
proof fn lemma_tail2_facts(s: Seq<char>, i: int, wr: bool, rs: Option<Seq<char>>)
    requires
        suffix_is(s, i, spec_enc_tail2(wr, rs)),
    ensures
        i + 15 <= s.len(),
        s[i] == '"',
        spec_escape_string("block_writes"@) == "block_writes"@,
        str_encodes_at(s, i + 1, "block_writes"@),
        s[i + 14] == ':',
        suffix_is(s, i + 15, spec_bool_lit(wr) + (","@ + spec_enc_tail3(rs))),
{
    lemma_writes_key_facts(s, i, spec_bool_lit(wr) + (","@ + spec_enc_tail3(rs)));
}

/// What the document shape from the `block_reason` member on forces.
proof fn lemma_tail3_facts(s: Seq<char>, i: int, rs: Option<Seq<char>>)
    requires
        suffix_is(s, i, spec_enc_tail3(rs)),
    ensures
        i + 15 <= s.len(),
        s[i] == '"',
        spec_escape_string("block_reason"@) == "block_reason"@,
        str_encodes_at(s, i + 1, "block_reason"@),
        s[i + 14] == ':',
        suffix_is(s, i + 15, spec_enc_reason(rs) + "}"@),
{
    lemma_reason_key_facts(s, i, spec_enc_reason(rs) + "}"@);
}

/// What a boolean member value followed by a comma forces.
proof fn lemma_bool_facts(s: Seq<char>, i: int, b: bool, t: Seq<char>)
    requires
        suffix_is(s, i, spec_bool_lit(b) + (","@ + t)),
    ensures
        b ==> lit_at(s, i, "true"@) && suffix_is(s, i + 5, t) && s[i + 4] == ',',
        !b ==> !lit_at(s, i, "true"@) && lit_at(s, i, "false"@) && suffix_is(s, i + 6, t) && s[i
            + 5] == ',',
{
    reveal_strlit("true");
    reveal_strlit("false");
    reveal_strlit(",");
    lemma_suffix_split(s, i, spec_bool_lit(b), ","@ + t);
    lemma_suffix_split(s, i + spec_bool_lit(b).len(), ","@, t);
    lemma_lit_at_index(s, i + spec_bool_lit(b).len(), ","@, 0);
    if !b {
        lemma_lit_at_index(s, i, "false"@, 0);
        if lit_at(s, i, "true"@) {
            lemma_lit_at_index(s, i, "true"@, 0);
        }
    }
}

/// The parse produced exactly this config.
pub open spec fn result_is(
    r: Option<DatabaseConfig>,
    rd: bool,
    wr: bool,
    rs: Option<Seq<char>>,
) -> bool {
    r matches Some(c) && c@ == ConfigV { block_reads: rd, block_writes: wr, block_reason: rs }
}

/// The reason field of a decoded config.
pub open spec fn spec_reason_view(o: Option<String>) -> Option<Seq<char>> {
    match o {
        Some(s) => Some(s@),
        None => None,
    }
}

/// What a boolean member value directly followed by the closing brace at
/// the very end of the document forces.
proof fn lemma_bool_end_facts(s: Seq<char>, i: int, b: bool)
    requires
        suffix_is(s, i, spec_bool_lit(b) + "}"@),
    ensures
        b ==> lit_at(s, i, "true"@) && s[i + 4] == '}' && i + 5 == s.len(),
        !b ==> !lit_at(s, i, "true"@) && lit_at(s, i, "false"@) && s[i + 5] == '}' && i + 6
            == s.len(),
{
    reveal_strlit("true");
    reveal_strlit("false");
    reveal_strlit("}");
    lemma_suffix_split(s, i, spec_bool_lit(b), "}"@);
    lemma_lit_at_index(s, i + spec_bool_lit(b).len(), "}"@, 0);
    if !b {
        lemma_lit_at_index(s, i, "false"@, 0);
        if lit_at(s, i, "true"@) {
            lemma_lit_at_index(s, i, "true"@, 0);
        }
    }
}

/// What the reason value followed by the closing brace at the very end of
/// the document forces.
proof fn lemma_reason_facts(s: Seq<char>, i: int, rs: Option<Seq<char>>)
    requires
        suffix_is(s, i, spec_enc_reason(rs) + "}"@),
    ensures
        rs is None ==> lit_at(s, i, "null"@) && i + 5 == s.len() && s[i + 4] == '}',
        rs matches Some(t) ==> {
            &&& !lit_at(s, i, "null"@)
            &&& s[i] == '"'
            &&& str_encodes_at(s, i + 1, t)
            &&& i + 1 + spec_escape_string(t).len() + 1 < s.len()
            &&& s[i + 1 + spec_escape_string(t).len() + 1] == '}'
            &&& i + 1 + spec_escape_string(t).len() + 2 == s.len()
        },
{
    reveal_strlit("null");
    reveal_strlit("}");
    lemma_suffix_split(s, i, spec_enc_reason(rs), "}"@);
    lemma_lit_at_index(s, i + spec_enc_reason(rs).len(), "}"@, 0);
    match rs {
        None => {},
        Some(t) => {
            assert(spec_enc_reason(rs) =~= seq!['"'] + (spec_escape_string(t) + seq!['"']));
            lemma_lit_at_split(s, i, seq!['"'], spec_escape_string(t) + seq!['"']);
            lemma_lit_at_index(s, i, seq!['"'], 0);
            if lit_at(s, i, "null"@) {
                lemma_lit_at_index(s, i, "null"@, 0);
            }
        },
    }
}

/// Decode the members of the document object, starting at a key's opening
/// quote, with the members decoded so far. Members may come in any order;
/// unknown members are skipped; a duplicate known member is an error.
/// The three conditional clauses state that on the writer's own output,
/// entered with the matching decoded-so-far state, the exact written
/// config comes back.
#[verifier::rlimit(100)]
/// Decode one member starting at the key's opening quote: the key, the
/// colon, and the value, dispatched on the key. On success the updated
/// decoded-so-far state comes back with the position just past the value;
/// a malformed member or a duplicate known member is nothing. The
/// conditional clauses say, shape by shape, what one member of a
/// well-formed document decodes to and where its value ends.
#[verifier::rlimit(100)]
fn parse_one_member(
    s: &Vec<char>,
    i: usize,
    reads: Option<bool>,
    writes: Option<bool>,
    reason: Option<Option<String>>,
) -> (r: Option<(Option<bool>, Option<bool>, Option<Option<String>>, usize)>)
    requires
        i <= s@.len(),
    ensures
        r matches Some(p) ==> i < p.3 <= s@.len() && s@[i as int] == '"',
        (forall|rd: bool, has_wr: bool, wr: bool, has_rs: bool, rs: Option<Seq<char>>|
            (reads is None && writes is None && reason is None && #[trigger] suffix_is(
                s@,
                i as int,
                spec_enc_suffix1(true, rd, has_wr, wr, has_rs, rs),
            )) ==> (r matches Some(p) && {
                &&& p.0 == Some(rd)
                &&& p.1 is None
                &&& p.2 is None
                &&& (has_wr ==> s@[p.3 as int] == ',' && suffix_is(
                    s@,
                    p.3 + 1,
                    spec_enc_suffix2(true, wr, has_rs, rs),
                ) && s@[p.3 + 1] == '"')
                &&& (!has_wr && has_rs ==> s@[p.3 as int] == ',' && suffix_is(
                    s@,
                    p.3 + 1,
                    spec_enc_tail3(rs),
                ) && s@[p.3 + 1] == '"')
                &&& (!has_wr && !has_rs ==> s@[p.3 as int] == '}' && p.3 + 1 == s@.len())
            })),
        (forall|wr: bool, has_rs: bool, rs: Option<Seq<char>>|
            (writes is None && reason is None && #[trigger] suffix_is(
                s@,
                i as int,
                spec_enc_suffix2(true, wr, has_rs, rs),
            )) ==> (r matches Some(p) && {
                &&& p.0 == reads
                &&& p.1 == Some(wr)
                &&& p.2 is None
                &&& (has_rs ==> s@[p.3 as int] == ',' && suffix_is(
                    s@,
                    p.3 + 1,
                    spec_enc_tail3(rs),
                ) && s@[p.3 + 1] == '"')
                &&& (!has_rs ==> s@[p.3 as int] == '}' && p.3 + 1 == s@.len())
            })),
        (forall|rs: Option<Seq<char>>|
            (reason is None && #[trigger] suffix_is(s@, i as int, spec_enc_tail3(rs))) ==> (r
                matches Some(p) && {
                &&& p.0 == reads
                &&& p.1 == writes
                &&& (p.2 matches Some(o) && spec_reason_view(o) == rs)
                &&& s@[p.3 as int] == '}'
                &&& p.3 + 1 == s@.len()
            })),
        (forall|k: Seq<char>, w: Seq<char>, rd: bool, wr: bool, rs: Option<Seq<char>>|
            (unknown_key(k) && #[trigger] suffix_is(
                s@,
                i as int,
                spec_enc_unknown_member(k, w) + (","@ + spec_enc_tail1(rd, wr, rs)),
            )) ==> (r matches Some(p) && {
                &&& p.0 == reads
                &&& p.1 == writes
                &&& p.2 == reason
                &&& p.3 == unk_after_pos(i as int, k, w)
                &&& s@[p.3 as int] == ','
                &&& suffix_is(s@, p.3 + 1, spec_enc_suffix1(true, rd, true, wr, true, rs))
                &&& s@[p.3 + 1] == '"'
            })),
        (forall|rest: Seq<char>|
            (#[trigger] suffix_is(s@, i as int, "\"block_reads\":"@ + rest) && !lit_at(
                s@,
                spec_ws_end(s@, i + 14),
                "true"@,
            ) && !lit_at(s@, spec_ws_end(s@, i + 14), "false"@)) ==> r is None),
        (forall|rest: Seq<char>|
            (#[trigger] suffix_is(s@, i as int, "\"block_writes\":"@ + rest) && !lit_at(
                s@,
                spec_ws_end(s@, i + 15),
                "true"@,
            ) && !lit_at(s@, spec_ws_end(s@, i + 15), "false"@)) ==> r is None),
        (forall|rest: Seq<char>|
            (#[trigger] suffix_is(s@, i as int, "\"block_reason\":"@ + rest) && !lit_at(
                s@,
                spec_ws_end(s@, i + 15),
                "null"@,
            ) && (spec_ws_end(s@, i + 15) < s@.len() ==> s@[spec_ws_end(s@, i + 15)] != '"'))
                ==> r is None),
{
    proof {
        assert forall|rd: bool, has_wr: bool, wr: bool, has_rs: bool, rs: Option<Seq<char>>| #[trigger]
            suffix_is(s@, i as int, spec_enc_suffix1(true, rd, has_wr, wr, has_rs, rs)) implies {
            &&& str_encodes_at(s@, i + 1, "block_reads"@)
            &&& s@[i as int] == '"'
            &&& s@[i + 13] == ':'
            &&& spec_escape_string("block_reads"@) == "block_reads"@
            &&& (rd ==> lit_at(s@, i + 14, "true"@) && s@[i + 14] == 't')
            &&& (!rd ==> !lit_at(s@, i + 14, "true"@) && lit_at(s@, i + 14, "false"@) && s@[i + 14]
                == 'f')
            &&& (has_wr && rd ==> s@[i + 18] == ',' && suffix_is(
                s@,
                i + 19,
                spec_enc_suffix2(true, wr, has_rs, rs),
            ) && s@[i + 19] == '"')
            &&& (has_wr && !rd ==> s@[i + 19] == ',' && suffix_is(
                s@,
                i + 20,
                spec_enc_suffix2(true, wr, has_rs, rs),
            ) && s@[i + 20] == '"')
            &&& (!has_wr && has_rs && rd ==> s@[i + 18] == ',' && suffix_is(
                s@,
                i + 19,
                spec_enc_tail3(rs),
            ) && s@[i + 19] == '"')
            &&& (!has_wr && has_rs && !rd ==> s@[i + 19] == ',' && suffix_is(
                s@,
                i + 20,
                spec_enc_tail3(rs),
            ) && s@[i + 20] == '"')
            &&& (!has_wr && !has_rs && rd ==> s@[i + 18] == '}' && i + 19 == s@.len())
            &&& (!has_wr && !has_rs && !rd ==> s@[i + 19] == '}' && i + 20 == s@.len())
        } by {
            reveal_strlit("true");
            reveal_strlit("false");
            if has_wr || has_rs {
                let rest2 = spec_enc_suffix2(has_wr, wr, has_rs, rs);
                lemma_reads_key_facts(s@, i as int, spec_bool_lit(rd) + (","@ + rest2));
                lemma_bool_facts(s@, i + 14, rd, rest2);
                let after = if rd {
                    i + 19
                } else {
                    i + 20
                };
                if rd {
                    lemma_lit_at_index(s@, i + 14, "true"@, 0);
                } else {
                    lemma_lit_at_index(s@, i + 14, "false"@, 0);
                }
                if has_wr {
                    assert(rest2 == spec_enc_suffix2(true, wr, has_rs, rs));
                    if has_rs {
                        lemma_tail2_facts(s@, after, wr, rs);
                    } else {
                        lemma_writes_key_facts(s@, after, spec_bool_lit(wr) + "}"@);
                    }
                } else {
                    assert(rest2 == spec_enc_tail3(rs));
                    lemma_tail3_facts(s@, after, rs);
                }
            } else {
                lemma_reads_key_facts(s@, i as int, spec_bool_lit(rd) + "}"@);
                lemma_bool_end_facts(s@, i + 14, rd);
                if rd {
                    lemma_lit_at_index(s@, i + 14, "true"@, 0);
                } else {
                    lemma_lit_at_index(s@, i + 14, "false"@, 0);
                }
            }
        }
        assert forall|wr: bool, has_rs: bool, rs: Option<Seq<char>>| #[trigger]
            suffix_is(s@, i as int, spec_enc_suffix2(true, wr, has_rs, rs)) implies {
            &&& str_encodes_at(s@, i + 1, "block_writes"@)
            &&& s@[i as int] == '"'
            &&& s@[i + 14] == ':'
            &&& spec_escape_string("block_writes"@) == "block_writes"@
            &&& (wr ==> lit_at(s@, i + 15, "true"@) && s@[i + 15] == 't')
            &&& (!wr ==> !lit_at(s@, i + 15, "true"@) && lit_at(s@, i + 15, "false"@) && s@[i + 15]
                == 'f')
            &&& (has_rs && wr ==> s@[i + 19] == ',' && suffix_is(s@, i + 20, spec_enc_tail3(rs))
                && s@[i + 20] == '"')
            &&& (has_rs && !wr ==> s@[i + 20] == ',' && suffix_is(s@, i + 21, spec_enc_tail3(rs))
                && s@[i + 21] == '"')
            &&& (!has_rs && wr ==> s@[i + 19] == '}' && i + 20 == s@.len())
            &&& (!has_rs && !wr ==> s@[i + 20] == '}' && i + 21 == s@.len())
        } by {
            reveal_strlit("true");
            reveal_strlit("false");
            if has_rs {
                lemma_tail2_facts(s@, i as int, wr, rs);
                lemma_bool_facts(s@, i + 15, wr, spec_enc_tail3(rs));
                if wr {
                    lemma_lit_at_index(s@, i + 15, "true"@, 0);
                    lemma_tail3_facts(s@, i + 20, rs);
                } else {
                    lemma_lit_at_index(s@, i + 15, "false"@, 0);
                    lemma_tail3_facts(s@, i + 21, rs);
                }
            } else {
                lemma_writes_key_facts(s@, i as int, spec_bool_lit(wr) + "}"@);
                lemma_bool_end_facts(s@, i + 15, wr);
                if wr {
                    lemma_lit_at_index(s@, i + 15, "true"@, 0);
                } else {
                    lemma_lit_at_index(s@, i + 15, "false"@, 0);
                }
            }
        }
        assert forall|rs: Option<Seq<char>>|
            suffix_is(s@, i as int, spec_enc_tail3(rs)) implies {
            &&& #[trigger] str_encodes_at(s@, i + 1, "block_reason"@)
            &&& s@[i as int] == '"'
            &&& s@[i + 14] == ':'
            &&& spec_escape_string("block_reason"@) == "block_reason"@
            &&& (rs is None ==> {
                &&& lit_at(s@, i + 15, "null"@)
                &&& s@[i + 15] == 'n'
                &&& s@[i + 19] == '}'
                &&& i + 20 == s@.len()
            })
            &&& (rs matches Some(t) ==> {
                &&& !lit_at(s@, i + 15, "null"@)
                &&& s@[i + 15] == '"'
                &&& str_encodes_at(s@, i + 16, t)
                &&& s@[i + 16 + spec_escape_string(t).len() + 1] == '}'
                &&& i + 16 + spec_escape_string(t).len() + 2 == s@.len()
            })
        } by {
            lemma_tail3_facts(s@, i as int, rs);
            lemma_reason_facts(s@, i + 15, rs);
            reveal_strlit("null");
            match rs {
                None => {
                    lemma_lit_at_index(s@, i + 15, "null"@, 0);
                },
                Some(_) => {},
            }
        }
        assert forall|k: Seq<char>, w: Seq<char>, rd: bool, wr: bool, rs: Option<Seq<char>>| #[trigger]
            suffix_is(
                s@,
                i as int,
                spec_enc_unknown_member(k, w) + (","@ + spec_enc_tail1(rd, wr, rs)),
            ) implies {
            &&& s@[i as int] == '"'
            &&& str_encodes_at(s@, i + 1, k)
            &&& s@[unk_colon_pos(i as int, k)] == ':'
            &&& s@[unk_colon_pos(i as int, k) + 1] == '"'
            &&& str_encodes_at(s@, unk_colon_pos(i as int, k) + 2, w)
            &&& s@[unk_after_pos(i as int, k, w)] == ','
            &&& suffix_is(
                s@,
                unk_after_pos(i as int, k, w) + 1,
                spec_enc_suffix1(true, rd, true, wr, true, rs),
            )
            &&& s@[unk_after_pos(i as int, k, w) + 1] == '"'
        } by {
            lemma_unknown_member_facts(s@, i as int, k, w, spec_enc_tail1(rd, wr, rs));
            lemma_tail1_facts(s@, unk_after_pos(i as int, k, w) + 1, rd, wr, rs);
            assert(spec_enc_suffix1(true, rd, true, wr, true, rs) == spec_enc_tail1(rd, wr, rs));
        }
        reveal_strlit("block_reads");
        reveal_strlit("block_writes");
        reveal_strlit("block_reason");
    }
    if !(i < s.len() && s[i] == '"') {
        return None;
    }
    let (key, after_key) = match parse_str_body(s, i + 1) {
        Some(p) => p,
        None => {
            return None;
        },
    };
    let key_s = string_from(&key);
    let colon_at = skip_ws(s, after_key);
    if !(colon_at < s.len() && s[colon_at] == ':') {
        return None;
    }
    let value_at = skip_ws(s, colon_at + 1);
    proof {
        assert forall|rd: bool, has_wr: bool, wr: bool, has_rs: bool, rs: Option<Seq<char>>| #[trigger]
            suffix_is(s@, i as int, spec_enc_suffix1(true, rd, has_wr, wr, has_rs, rs)) implies key@
            == "block_reads"@ && after_key == i + 13 && colon_at == i + 13 && value_at == i
            + 14 by {
            reveal_strlit("block_reads");
            assert(str_encodes_at(s@, i + 1, "block_reads"@));
            assert(key@ == "block_reads"@);
            assert(after_key == i + 1 + spec_escape_string("block_reads"@).len() + 1);
        }
        assert forall|wr: bool, has_rs: bool, rs: Option<Seq<char>>| #[trigger]
            suffix_is(s@, i as int, spec_enc_suffix2(true, wr, has_rs, rs)) implies key@
            == "block_writes"@ && after_key == i + 14 && colon_at == i + 14 && value_at == i
            + 15 by {
            reveal_strlit("block_writes");
            assert(str_encodes_at(s@, i + 1, "block_writes"@));
            assert(key@ == "block_writes"@);
            assert(after_key == i + 1 + spec_escape_string("block_writes"@).len() + 1);
        }
        assert forall|rs: Option<Seq<char>>|
            suffix_is(s@, i as int, spec_enc_tail3(rs)) implies key@ == "block_reason"@
            && after_key == i + 14 && colon_at == i + 14 && value_at == i + 15 by {
            reveal_strlit("block_reason");
            assert(str_encodes_at(s@, i + 1, "block_reason"@));
            assert(key@ == "block_reason"@);
            assert(after_key == i + 1 + spec_escape_string("block_reason"@).len() + 1);
        }
        assert forall|k: Seq<char>, w: Seq<char>, rd: bool, wr: bool, rs: Option<Seq<char>>| #[trigger]
            suffix_is(
                s@,
                i as int,
                spec_enc_unknown_member(k, w) + (","@ + spec_enc_tail1(rd, wr, rs)),
            ) implies key@ == k && colon_at == unk_colon_pos(i as int, k) && value_at
            == unk_colon_pos(i as int, k) + 1 by {
            assert(str_encodes_at(s@, i + 1, k));
            assert(key@ == k);
            assert(after_key == i + 1 + spec_escape_string(k).len() + 1);
            assert(after_key == unk_colon_pos(i as int, k));
        }
        assert forall|rest: Seq<char>| #[trigger]
            suffix_is(s@, i as int, "\"block_reads\":"@ + rest) implies key@ == "block_reads"@
            && colon_at == i + 13 && value_at == spec_ws_end(s@, i + 14) by {
            reveal_strlit("block_reads");
            lemma_reads_key_facts(s@, i as int, rest);
            assert(str_encodes_at(s@, i + 1, "block_reads"@));
            assert(key@ == "block_reads"@);
            assert(after_key == i + 1 + spec_escape_string("block_reads"@).len() + 1);
        }
        assert forall|rest: Seq<char>| #[trigger]
            suffix_is(s@, i as int, "\"block_writes\":"@ + rest) implies key@ == "block_writes"@
            && colon_at == i + 14 && value_at == spec_ws_end(s@, i + 15) by {
            reveal_strlit("block_writes");
            lemma_writes_key_facts(s@, i as int, rest);
            assert(str_encodes_at(s@, i + 1, "block_writes"@));
            assert(key@ == "block_writes"@);
            assert(after_key == i + 1 + spec_escape_string("block_writes"@).len() + 1);
        }
        assert forall|rest: Seq<char>| #[trigger]
            suffix_is(s@, i as int, "\"block_reason\":"@ + rest) implies key@ == "block_reason"@
            && colon_at == i + 14 && value_at == spec_ws_end(s@, i + 15) by {
            reveal_strlit("block_reason");
            lemma_reason_key_facts(s@, i as int, rest);
            assert(str_encodes_at(s@, i + 1, "block_reason"@));
            assert(key@ == "block_reason"@);
            assert(after_key == i + 1 + spec_escape_string("block_reason"@).len() + 1);
        }
    }
    proof {
        reveal_strlit("block_reads");
        reveal_strlit("block_writes");
        reveal_strlit("block_reason");
        assert("block_reads"@ != "block_writes"@ && "block_reads"@ != "block_reason"@
            && "block_writes"@ != "block_reason"@) by {
            assert("block_reads"@[6] == 'r' && "block_writes"@[6] == 'w' && "block_reason"@[6]
                == 'r');
            assert("block_reads"@.len() == 11 && "block_reason"@.len() == 12);
        }
    }
    let mut reads2 = reads;
    let mut writes2 = writes;
    let mut reason2 = reason;
    let after_value: usize;
    if key_s == "block_reads".to_owned() {
        if reads2.is_some() {
            return None;
        }
        match crate::json::expect_lit(s, value_at, "true") {
            Some(p) => {
                reads2 = Some(true);
                after_value = p;
            },
            None => {
                match crate::json::expect_lit(s, value_at, "false") {
                    Some(p) => {
                        reads2 = Some(false);
                        after_value = p;
                    },
                    None => {
                        return None;
                    },
                }
            },
        }
    } else if key_s == "block_writes".to_owned() {
        if writes2.is_some() {
            return None;
        }
        match crate::json::expect_lit(s, value_at, "true") {
            Some(p) => {
                writes2 = Some(true);
                after_value = p;
            },
            None => {
                match crate::json::expect_lit(s, value_at, "false") {
                    Some(p) => {
                        writes2 = Some(false);
                        after_value = p;
                    },
                    None => {
                        return None;
                    },
                }
            },
        }
    } else if key_s == "block_reason".to_owned() {
        if reason2.is_some() {
            return None;
        }
        match crate::json::expect_lit(s, value_at, "null") {
            Some(p) => {
                reason2 = Some(None);
                after_value = p;
            },
            None => {
                if !(value_at < s.len() && s[value_at] == '"') {
                    return None;
                }
                match parse_str_body(s, value_at + 1) {
                    Some((content, p)) => {
                        reason2 = Some(Some(string_from(&content)));
                        after_value = p;
                    },
                    None => {
                        return None;
                    },
                }
            },
        }
    } else {
        match skip_value(s, value_at) {
            Some(p) => {
                after_value = p;
            },
            None => {
                return None;
            },
        }
    }
    proof {
        assert forall|k: Seq<char>, w: Seq<char>, rd: bool, wr: bool, rs: Option<Seq<char>>|
            (unknown_key(k) && #[trigger] suffix_is(
                s@,
                i as int,
                spec_enc_unknown_member(k, w) + (","@ + spec_enc_tail1(rd, wr, rs)),
            )) implies {
            &&& reads2 == reads
            &&& writes2 == writes
            &&& reason2 == reason
            &&& after_value == unk_after_pos(i as int, k, w)
            &&& s@[after_value as int] == ','
            &&& suffix_is(s@, after_value + 1, spec_enc_suffix1(true, rd, true, wr, true, rs))
            &&& s@[after_value + 1] == '"'
        } by {
            reveal_strlit("block_reads");
            reveal_strlit("block_writes");
            reveal_strlit("block_reason");
            assert(key@ == k);
            assert(value_at == unk_colon_pos(i as int, k) + 1);
            assert(str_encodes_at(s@, value_at + 1, w));
        }
        assert forall|rd: bool, has_wr: bool, wr: bool, has_rs: bool, rs: Option<Seq<char>>|
            (reads is None && writes is None && reason is None && #[trigger] suffix_is(
                s@,
                i as int,
                spec_enc_suffix1(true, rd, has_wr, wr, has_rs, rs),
            )) implies {
            &&& reads2 == Some(rd)
            &&& writes2 is None
            &&& reason2 is None
            &&& (has_wr ==> s@[after_value as int] == ',' && suffix_is(
                s@,
                after_value + 1,
                spec_enc_suffix2(true, wr, has_rs, rs),
            ) && s@[after_value + 1] == '"')
            &&& (!has_wr && has_rs ==> s@[after_value as int] == ',' && suffix_is(
                s@,
                after_value + 1,
                spec_enc_tail3(rs),
            ) && s@[after_value + 1] == '"')
            &&& (!has_wr && !has_rs ==> s@[after_value as int] == '}' && after_value + 1
                == s@.len())
        } by {
            reveal_strlit("true");
            reveal_strlit("false");
            assert(value_at == i + 14);
            if rd {
                assert(after_value == i + 18);
            } else {
                assert(after_value == i + 19);
            }
        }
        assert forall|wr: bool, has_rs: bool, rs: Option<Seq<char>>|
            (writes is None && reason is None && #[trigger] suffix_is(
                s@,
                i as int,
                spec_enc_suffix2(true, wr, has_rs, rs),
            )) implies {
            &&& reads2 == reads
            &&& writes2 == Some(wr)
            &&& reason2 is None
            &&& (has_rs ==> s@[after_value as int] == ',' && suffix_is(
                s@,
                after_value + 1,
                spec_enc_tail3(rs),
            ) && s@[after_value + 1] == '"')
            &&& (!has_rs ==> s@[after_value as int] == '}' && after_value + 1 == s@.len())
        } by {
            reveal_strlit("true");
            reveal_strlit("false");
            assert(value_at == i + 15);
            if wr {
                assert(after_value == i + 19);
            } else {
                assert(after_value == i + 20);
            }
        }
        assert forall|rs: Option<Seq<char>>|
            (reason is None && #[trigger] suffix_is(s@, i as int, spec_enc_tail3(rs))) implies {
            &&& reads2 == reads
            &&& writes2 == writes
            &&& (reason2 matches Some(o) && spec_reason_view(o) == rs)
            &&& s@[after_value as int] == '}'
            &&& after_value + 1 == s@.len()
        } by {
            reveal_strlit("null");
            assert(value_at == i + 15);
            match rs {
                None => {
                    assert(after_value == i + 19);
                },
                Some(t) => {
                    assert(str_encodes_at(s@, i + 16, t));
                    assert(after_value == i + 16 + spec_escape_string(t).len() + 1);
                },
            }
        }
    }
    Some((reads2, writes2, reason2, after_value))
}

fn parse_members(
    s: &Vec<char>,
    i: usize,
    reads: Option<bool>,
    writes: Option<bool>,
    reason: Option<Option<String>>,
) -> (r: Option<DatabaseConfig>)
    requires
        i <= s@.len(),
    ensures
        (forall|rd: bool, has_wr: bool, wr: bool, has_rs: bool, rs: Option<Seq<char>>|
            (reads is None && writes is None && reason is None && #[trigger] suffix_is(
                s@,
                i as int,
                spec_enc_suffix1(true, rd, has_wr, wr, has_rs, rs),
            )) ==> result_is(r, rd, pick_bool(has_wr, wr), pick_reason(has_rs, rs))),
        (forall|wr: bool, has_rs: bool, rs: Option<Seq<char>>|
            (writes is None && reason is None && #[trigger] suffix_is(
                s@,
                i as int,
                spec_enc_suffix2(true, wr, has_rs, rs),
            )) ==> result_is(r, opt_or_false(reads), wr, pick_reason(has_rs, rs))),
        (forall|rs: Option<Seq<char>>|
            (reason is None && #[trigger] suffix_is(s@, i as int, spec_enc_tail3(rs)))
                ==> result_is(r, opt_or_false(reads), opt_or_false(writes), rs)),
        (forall|k: Seq<char>, w: Seq<char>, rd: bool, wr: bool, rs: Option<Seq<char>>|
            (reads is None && writes is None && reason is None && unknown_key(k)
                && #[trigger] suffix_is(
                s@,
                i as int,
                spec_enc_unknown_member(k, w) + (","@ + spec_enc_tail1(rd, wr, rs)),
            )) ==> result_is(r, rd, wr, rs)),
        (forall|rest: Seq<char>|
            (#[trigger] suffix_is(s@, i as int, "\"block_reads\":"@ + rest) && !lit_at(
                s@,
                spec_ws_end(s@, i + 14),
                "true"@,
            ) && !lit_at(s@, spec_ws_end(s@, i + 14), "false"@)) ==> r is None),
        (forall|rest: Seq<char>|
            (#[trigger] suffix_is(s@, i as int, "\"block_writes\":"@ + rest) && !lit_at(
                s@,
                spec_ws_end(s@, i + 15),
                "true"@,
            ) && !lit_at(s@, spec_ws_end(s@, i + 15), "false"@)) ==> r is None),
        (forall|rest: Seq<char>|
            (#[trigger] suffix_is(s@, i as int, "\"block_reason\":"@ + rest) && !lit_at(
                s@,
                spec_ws_end(s@, i + 15),
                "null"@,
            ) && (spec_ws_end(s@, i + 15) < s@.len() ==> s@[spec_ws_end(s@, i + 15)] != '"'))
                ==> r is None),
        r matches Some(_) ==> i < s@.len() && s@[i as int] == '"',
        r matches Some(_) ==> closes_object(s@),
    decreases s@.len() - i,
{
    let parsed = parse_one_member(s, i, reads, writes, reason);
    let (reads2, writes2, reason2, after_value) = match parsed {
        Some(p) => p,
        None => {
            return None;
        },
    };
    let sep_at = skip_ws(s, after_value);
    if sep_at < s.len() && s[sep_at] == ',' {
        let next_at = skip_ws(s, sep_at + 1);
        return parse_members(s, next_at, reads2, writes2, reason2);
    }
    if sep_at < s.len() && s[sep_at] == '}' {
        let end_at = skip_ws(s, sep_at + 1);
        if end_at == s.len() {
            proof {
                assert(closes_object(s@)) by {
                    assert((s@[sep_at as int]) == '}' && (forall|j: int|
                        sep_at < j < s@.len() ==> char_is_ws(#[trigger] s@[j])));
                }
            }
            let cfg = DatabaseConfig {
                block_reads: match reads2 {
                    Some(b) => b,
                    None => false,
                },
                block_writes: match writes2 {
                    Some(b) => b,
                    None => false,
                },
                block_reason: match reason2 {
                    Some(o) => o,
                    None => None,
                },
            };
            return Some(cfg);
        }
        return None;
    }
    None
}

/// The input does not even open a JSON object: its first non-whitespace
/// character is missing or is not `{`.
pub open spec fn not_an_object(s: Seq<char>) -> bool {
    spec_ws_end(s, 0) == s.len() || s[spec_ws_end(s, 0)] != '{'
}

/// The input opens an object whose first member, if any, starts with a
/// quoted key (or the object closes immediately): what every accepted
/// document begins with.
pub open spec fn opens_object_member(s: Seq<char>) -> bool {
    &&& spec_ws_end(s, 0) < s.len()
    &&& s[spec_ws_end(s, 0)] == '{'
    &&& spec_ws_end(s, spec_ws_end(s, 0) + 1) < s.len()
    &&& (s[spec_ws_end(s, spec_ws_end(s, 0) + 1)] == '"' || s[spec_ws_end(
        s,
        spec_ws_end(s, 0) + 1,
    )] == '}')
}

/// The input's last non-whitespace character closes an object: some `}`
/// is followed by nothing but whitespace.
pub open spec fn closes_object(s: Seq<char>) -> bool {
    exists|p: int|
        0 <= p < s.len() && (#[trigger] s[p]) == '}' && (forall|j: int|
            p < j < s.len() ==> char_is_ws(#[trigger] s[j]))
}

/// Decode a whole config document: an object with any member order,
/// whitespace anywhere between tokens, and unknown members ignored;
/// duplicate known members and anything else malformed is rejected. The
/// first ensures clause is the decode half of the round trip: every
/// document the writer produces decodes back to the config it was written
/// from. The others pin the reader on two more input families: text that
/// does not open an object is rejected, and the empty object decodes to
/// the all-default config.
fn parse_document(s: &Vec<char>) -> (r: Option<DatabaseConfig>)
    ensures
        forall|rd: bool, wr: bool, rs: Option<Seq<char>>|
            s@ == spec_encode_config(
                ConfigV { block_reads: rd, block_writes: wr, block_reason: rs },
            ) ==> result_is(r, rd, wr, rs),
        (forall|has_rd: bool, rd: bool, has_wr: bool, wr: bool, has_rs: bool, rs: Option<Seq<char>>|
            s@ == #[trigger] spec_encode_subset(has_rd, rd, has_wr, wr, has_rs, rs) ==> result_is(
                r,
                pick_bool(has_rd, rd),
                pick_bool(has_wr, wr),
                pick_reason(has_rs, rs),
            )),
        (forall|k: Seq<char>, w: Seq<char>, rd: bool, wr: bool, rs: Option<Seq<char>>|
            (unknown_key(k) && s@ == #[trigger] spec_encode_with_unknown(
                k,
                w,
                ConfigV { block_reads: rd, block_writes: wr, block_reason: rs },
            )) ==> result_is(r, rd, wr, rs)),
        (forall|rest: Seq<char>|
            (s@ == "{"@ + ("\"block_reads\":"@ + rest) && !lit_at(s@, spec_ws_end(s@, 15), "true"@)
                && !lit_at(s@, spec_ws_end(s@, 15), "false"@)) ==> r is None),
        (forall|rest: Seq<char>|
            (s@ == "{"@ + ("\"block_writes\":"@ + rest) && !lit_at(
                s@,
                spec_ws_end(s@, 16),
                "true"@,
            ) && !lit_at(s@, spec_ws_end(s@, 16), "false"@)) ==> r is None),
        (forall|rest: Seq<char>|
            (s@ == "{"@ + ("\"block_reason\":"@ + rest) && !lit_at(s@, spec_ws_end(s@, 16), "null"@)
                && (spec_ws_end(s@, 16) < s@.len() ==> s@[spec_ws_end(s@, 16)] != '"')) ==> r
                is None),
        not_an_object(s@) ==> r is None,
        s@ == "{}"@ ==> result_is(r, false, false, None),
        r matches Some(_) ==> opens_object_member(s@),
        r matches Some(_) ==> closes_object(s@),
{
    proof {
        assert forall|rd: bool, wr: bool, rs: Option<Seq<char>>|
            s@ == spec_encode_config(
                ConfigV { block_reads: rd, block_writes: wr, block_reason: rs },
            ) implies {
            &&& s@.len() >= 1
            &&& s@[0] == '{'
            &&& suffix_is(s@, 1, spec_enc_suffix1(true, rd, true, wr, true, rs))
            &&& s@[1] == '"'
        } by {
            reveal_strlit("{");
            let tail = spec_enc_tail1(rd, wr, rs);
            assert(s@.subrange(0, s@.len() as int) =~= s@);
            assert(lit_at(s@, 0, "{"@ + tail));
            lemma_suffix_split(s@, 0, "{"@, tail);
            lemma_lit_at_index(s@, 0, "{"@, 0);
            lemma_tail1_facts(s@, 1, rd, wr, rs);
            assert(spec_enc_suffix1(true, rd, true, wr, true, rs) == tail);
        }
        assert forall|has_rd: bool, rd: bool, has_wr: bool, wr: bool, has_rs: bool, rs: Option<
            Seq<char>,
        >|
            s@ == #[trigger] spec_encode_subset(has_rd, rd, has_wr, wr, has_rs, rs) implies {
            &&& s@.len() >= 1
            &&& s@[0] == '{'
            &&& (has_rd ==> suffix_is(s@, 1, spec_enc_suffix1(true, rd, has_wr, wr, has_rs, rs))
                && s@[1] == '"')
            &&& (!has_rd && has_wr ==> suffix_is(s@, 1, spec_enc_suffix2(true, wr, has_rs, rs))
                && s@[1] == '"')
            &&& (!has_rd && !has_wr && has_rs ==> suffix_is(s@, 1, spec_enc_tail3(rs)) && s@[1]
                == '"')
            &&& (!has_rd && !has_wr && !has_rs ==> s@.len() == 2 && s@[1] == '}')
        } by {
            reveal_strlit("{");
            reveal_strlit("}");
            let tail = spec_enc_suffix1(has_rd, rd, has_wr, wr, has_rs, rs);
            assert(s@.subrange(0, s@.len() as int) =~= s@);
            assert(lit_at(s@, 0, "{"@ + tail));
            lemma_suffix_split(s@, 0, "{"@, tail);
            lemma_lit_at_index(s@, 0, "{"@, 0);
            if has_rd {
                assert(tail == spec_enc_suffix1(true, rd, has_wr, wr, has_rs, rs));
                if has_wr || has_rs {
                    lemma_reads_key_facts(
                        s@,
                        1,
                        spec_bool_lit(rd) + (","@ + spec_enc_suffix2(has_wr, wr, has_rs, rs)),
                    );
                } else {
                    lemma_reads_key_facts(s@, 1, spec_bool_lit(rd) + "}"@);
                }
            } else if has_wr {
                assert(tail == spec_enc_suffix2(true, wr, has_rs, rs));
                if has_rs {
                    lemma_tail2_facts(s@, 1, wr, rs);
                } else {
                    lemma_writes_key_facts(s@, 1, spec_bool_lit(wr) + "}"@);
                }
            } else if has_rs {
                assert(tail == spec_enc_tail3(rs));
                lemma_tail3_facts(s@, 1, rs);
            } else {
                assert(tail == "}"@);
                lemma_lit_at_index(s@, 1, "}"@, 0);
            }
        }
        assert forall|k: Seq<char>, w: Seq<char>, rd: bool, wr: bool, rs: Option<Seq<char>>|
            s@ == #[trigger] spec_encode_with_unknown(
                k,
                w,
                ConfigV { block_reads: rd, block_writes: wr, block_reason: rs },
            ) implies {
            &&& s@.len() >= 1
            &&& s@[0] == '{'
            &&& suffix_is(
                s@,
                1,
                spec_enc_unknown_member(k, w) + (","@ + spec_enc_tail1(rd, wr, rs)),
            )
            &&& s@[1] == '"'
        } by {
            reveal_strlit("{");
            let tail = spec_enc_unknown_member(k, w) + (","@ + spec_enc_tail1(rd, wr, rs));
            assert(s@.subrange(0, s@.len() as int) =~= s@);
            assert(lit_at(s@, 0, "{"@ + tail));
            lemma_suffix_split(s@, 0, "{"@, tail);
            lemma_lit_at_index(s@, 0, "{"@, 0);
            lemma_unknown_member_facts(s@, 1, k, w, spec_enc_tail1(rd, wr, rs));
        }
        assert forall|rest: Seq<char>|
            s@ == #[trigger] ("{"@ + ("\"block_reads\":"@ + rest)) implies {
            &&& s@.len() >= 1
            &&& s@[0] == '{'
            &&& suffix_is(s@, 1, "\"block_reads\":"@ + rest)
            &&& s@[1] == '"'
        } by {
            reveal_strlit("{");
            let tail = "\"block_reads\":"@ + rest;
            assert(s@.subrange(0, s@.len() as int) =~= s@);
            assert(lit_at(s@, 0, "{"@ + tail));
            lemma_suffix_split(s@, 0, "{"@, tail);
            lemma_lit_at_index(s@, 0, "{"@, 0);
            lemma_reads_key_facts(s@, 1, rest);
        }
        assert forall|rest: Seq<char>|
            s@ == #[trigger] ("{"@ + ("\"block_writes\":"@ + rest)) implies {
            &&& s@.len() >= 1
            &&& s@[0] == '{'
            &&& suffix_is(s@, 1, "\"block_writes\":"@ + rest)
            &&& s@[1] == '"'
        } by {
            reveal_strlit("{");
            let tail = "\"block_writes\":"@ + rest;
            assert(s@.subrange(0, s@.len() as int) =~= s@);
            assert(lit_at(s@, 0, "{"@ + tail));
            lemma_suffix_split(s@, 0, "{"@, tail);
            lemma_lit_at_index(s@, 0, "{"@, 0);
            lemma_writes_key_facts(s@, 1, rest);
        }
        assert forall|rest: Seq<char>|
            s@ == #[trigger] ("{"@ + ("\"block_reason\":"@ + rest)) implies {
            &&& s@.len() >= 1
            &&& s@[0] == '{'
            &&& suffix_is(s@, 1, "\"block_reason\":"@ + rest)
            &&& s@[1] == '"'
        } by {
            reveal_strlit("{");
            let tail = "\"block_reason\":"@ + rest;
            assert(s@.subrange(0, s@.len() as int) =~= s@);
            assert(lit_at(s@, 0, "{"@ + tail));
            lemma_suffix_split(s@, 0, "{"@, tail);
            lemma_lit_at_index(s@, 0, "{"@, 0);
            lemma_reason_key_facts(s@, 1, rest);
        }
        reveal_strlit("{}");
        if s@ == "{}"@ {
            assert(s@.len() == 2 && s@[0] == '{' && s@[1] == '}');
        }
    }
    let start = skip_ws(s, 0);
    if !(start < s.len() && s[start] == '{') {
        return None;
    }
    let first = skip_ws(s, start + 1);
    if first < s.len() && s[first] == '}' {
        let end_at = skip_ws(s, first + 1);
        if end_at == s.len() {
            proof {
                assert(closes_object(s@)) by {
                    assert((s@[first as int]) == '}' && (forall|j: int|
                        first < j < s@.len() ==> char_is_ws(#[trigger] s@[j])));
                }
            }
            return Some(DatabaseConfig::default());
        }
        return None;
    }
    parse_members(s, first, None, None, None)
}

impl DatabaseConfig {
    /// Decode a config document; malformed content is an error. Every
    /// document `to_json` produces decodes back to the config it was
    /// written from; a document holding only some of the members (as an
    /// older writer would have produced) decodes with the defaults for the
    /// missing ones; text that does not open a JSON object is rejected.
    pub fn from_json(s: &str) -> (r: Result<DatabaseConfig, Error>)
        ensures
            forall|rd: bool, wr: bool, rs: Option<Seq<char>>|
                s@ == spec_encode_config(
                    ConfigV { block_reads: rd, block_writes: wr, block_reason: rs },
                ) ==> (r matches Ok(c) && c@ == ConfigV {
                    block_reads: rd,
                    block_writes: wr,
                    block_reason: rs,
                }),
            (forall|has_rd: bool, rd: bool, has_wr: bool, wr: bool, has_rs: bool, rs: Option<
                Seq<char>,
            >|
                s@ == #[trigger] spec_encode_subset(has_rd, rd, has_wr, wr, has_rs, rs) ==> (r
                    matches Ok(c) && c@ == ConfigV {
                    block_reads: pick_bool(has_rd, rd),
                    block_writes: pick_bool(has_wr, wr),
                    block_reason: pick_reason(has_rs, rs),
                })),
            (forall|k: Seq<char>, w: Seq<char>, rd: bool, wr: bool, rs: Option<Seq<char>>|
                (unknown_key(k) && s@ == #[trigger] spec_encode_with_unknown(
                    k,
                    w,
                    ConfigV { block_reads: rd, block_writes: wr, block_reason: rs },
                )) ==> (r matches Ok(c) && c@ == ConfigV {
                    block_reads: rd,
                    block_writes: wr,
                    block_reason: rs,
                })),
            (forall|rest: Seq<char>|
                (s@ == #[trigger] ("{"@ + ("\"block_reads\":"@ + rest)) && !lit_at(
                    s@,
                    spec_ws_end(s@, 15),
                    "true"@,
                ) && !lit_at(s@, spec_ws_end(s@, 15), "false"@)) ==> r is Err),
            (forall|rest: Seq<char>|
                (s@ == #[trigger] ("{"@ + ("\"block_writes\":"@ + rest)) && !lit_at(
                    s@,
                    spec_ws_end(s@, 16),
                    "true"@,
                ) && !lit_at(s@, spec_ws_end(s@, 16), "false"@)) ==> r is Err),
            (forall|rest: Seq<char>|
                (s@ == #[trigger] ("{"@ + ("\"block_reason\":"@ + rest)) && !lit_at(
                    s@,
                    spec_ws_end(s@, 16),
                    "null"@,
                ) && (spec_ws_end(s@, 16) < s@.len() ==> s@[spec_ws_end(s@, 16)] != '"')) ==> r
                    is Err),
            not_an_object(s@) ==> (r matches Err(e) && e matches Error::InvalidConfig),
            r is Ok ==> opens_object_member(s@),
            s@ == "{}"@ ==> (r matches Ok(c) && c@ == (ConfigV {
                block_reads: false,
                block_writes: false,
                block_reason: None,
            })),
            r is Ok ==> !not_an_object(s@) && closes_object(s@),
            r matches Err(e) ==> e matches Error::InvalidConfig,
    {
        let chars = chars_of(s);
        let parsed = parse_document(&chars);
        match parsed {
            Some(c) => {
                proof {
                    assert forall|rd: bool, wr: bool, rs: Option<Seq<char>>|
                        s@ == spec_encode_config(
                            ConfigV { block_reads: rd, block_writes: wr, block_reason: rs },
                        ) implies c@ == (ConfigV {
                        block_reads: rd,
                        block_writes: wr,
                        block_reason: rs,
                    }) by {
                        assert(chars@ == spec_encode_config(
                            ConfigV { block_reads: rd, block_writes: wr, block_reason: rs },
                        ));
                        assert(result_is(parsed, rd, wr, rs));
                    }
                    assert forall|
                        has_rd: bool,
                        rd: bool,
                        has_wr: bool,
                        wr: bool,
                        has_rs: bool,
                        rs: Option<Seq<char>>,
                    |
                        s@ == #[trigger] spec_encode_subset(
                            has_rd,
                            rd,
                            has_wr,
                            wr,
                            has_rs,
                            rs,
                        ) implies c@ == (ConfigV {
                        block_reads: pick_bool(has_rd, rd),
                        block_writes: pick_bool(has_wr, wr),
                        block_reason: pick_reason(has_rs, rs),
                    }) by {
                        assert(chars@ == spec_encode_subset(has_rd, rd, has_wr, wr, has_rs, rs));
                        assert(result_is(
                            parsed,
                            pick_bool(has_rd, rd),
                            pick_bool(has_wr, wr),
                            pick_reason(has_rs, rs),
                        ));
                    }
                    assert forall|k: Seq<char>, w: Seq<char>, rd: bool, wr: bool, rs: Option<
                        Seq<char>,
                    >|
                        (unknown_key(k) && s@ == #[trigger] spec_encode_with_unknown(
                            k,
                            w,
                            ConfigV { block_reads: rd, block_writes: wr, block_reason: rs },
                        )) implies c@ == (ConfigV {
                        block_reads: rd,
                        block_writes: wr,
                        block_reason: rs,
                    }) by {
                        assert(chars@ == spec_encode_with_unknown(
                            k,
                            w,
                            ConfigV { block_reads: rd, block_writes: wr, block_reason: rs },
                        ));
                        assert(result_is(parsed, rd, wr, rs));
                    }
                    assert forall|rest: Seq<char>|
                        !(s@ == #[trigger] ("{"@ + ("\"block_reads\":"@ + rest)) && !lit_at(
                            s@,
                            spec_ws_end(s@, 15),
                            "true"@,
                        ) && !lit_at(s@, spec_ws_end(s@, 15), "false"@)) by {
                        if s@ == "{"@ + ("\"block_reads\":"@ + rest) {
                            assert(chars@ == "{"@ + ("\"block_reads\":"@ + rest));
                        }
                    }
                    assert forall|rest: Seq<char>|
                        !(s@ == #[trigger] ("{"@ + ("\"block_writes\":"@ + rest)) && !lit_at(
                            s@,
                            spec_ws_end(s@, 16),
                            "true"@,
                        ) && !lit_at(s@, spec_ws_end(s@, 16), "false"@)) by {
                        if s@ == "{"@ + ("\"block_writes\":"@ + rest) {
                            assert(chars@ == "{"@ + ("\"block_writes\":"@ + rest));
                        }
                    }
                    assert forall|rest: Seq<char>|
                        !(s@ == #[trigger] ("{"@ + ("\"block_reason\":"@ + rest)) && !lit_at(
                            s@,
                            spec_ws_end(s@, 16),
                            "null"@,
                        ) && (spec_ws_end(s@, 16) < s@.len() ==> s@[spec_ws_end(s@, 16)]
                            != '"')) by {
                        if s@ == "{"@ + ("\"block_reason\":"@ + rest) {
                            assert(chars@ == "{"@ + ("\"block_reason\":"@ + rest));
                        }
                    }
                    if not_an_object(s@) {
                        assert(not_an_object(chars@));
                        assert(false);
                    }
                    if s@ == "{}"@ {
                        assert(chars@ == "{}"@);
                        assert(result_is(parsed, false, false, None));
                    }
                    assert(opens_object_member(chars@));
                    assert(opens_object_member(s@));
                    assert(closes_object(chars@));
                    assert(closes_object(s@));
                }
                Ok(c)
            },
            None => {
                proof {
                    assert forall|rd: bool, wr: bool, rs: Option<Seq<char>>|
                        s@ != spec_encode_config(
                            ConfigV { block_reads: rd, block_writes: wr, block_reason: rs },
                        ) by {
                        if s@ == spec_encode_config(
                            ConfigV { block_reads: rd, block_writes: wr, block_reason: rs },
                        ) {
                            assert(result_is(parsed, rd, wr, rs));
                        }
                    }
                    assert forall|
                        has_rd: bool,
                        rd: bool,
                        has_wr: bool,
                        wr: bool,
                        has_rs: bool,
                        rs: Option<Seq<char>>,
                    |
                        s@ != #[trigger] spec_encode_subset(has_rd, rd, has_wr, wr, has_rs, rs) by {
                        if s@ == spec_encode_subset(has_rd, rd, has_wr, wr, has_rs, rs) {
                            assert(result_is(
                                parsed,
                                pick_bool(has_rd, rd),
                                pick_bool(has_wr, wr),
                                pick_reason(has_rs, rs),
                            ));
                        }
                    }
                    assert forall|k: Seq<char>, w: Seq<char>, rd: bool, wr: bool, rs: Option<
                        Seq<char>,
                    >|
                        !(unknown_key(k) && s@ == #[trigger] spec_encode_with_unknown(
                            k,
                            w,
                            ConfigV { block_reads: rd, block_writes: wr, block_reason: rs },
                        )) by {
                        if unknown_key(k) && s@ == spec_encode_with_unknown(
                            k,
                            w,
                            ConfigV { block_reads: rd, block_writes: wr, block_reason: rs },
                        ) {
                            assert(chars@ == spec_encode_with_unknown(
                                k,
                                w,
                                ConfigV { block_reads: rd, block_writes: wr, block_reason: rs },
                            ));
                            assert(result_is(parsed, rd, wr, rs));
                        }
                    }
                    if s@ == "{}"@ {
                        assert(chars@ == "{}"@);
                        assert(result_is(parsed, false, false, None));
                        assert(false);
                    }
                }
                Err(Error::InvalidConfig)
            },
        }
    }
}

/// The persistent location of the config document plus the in-memory
/// snapshot. The surrounding runtime does the file work: it writes the
/// staged document to the staging path, renames it over the live path
/// (atomic on POSIX), and commits the snapshot only after the rename
/// succeeded — so a crash mid-write leaves either the old or the new
/// document on disk, and a failed write leaves the snapshot untouched.
pub struct DatabaseConfigStore {
    config_path: String,
    tmp_config_path: String,
    config: DatabaseConfig,
}

impl DatabaseConfigStore {
    /// Where the live document lives.
    pub closed spec fn spec_config_path(self) -> Seq<char> {
        self.config_path@
    }

    /// Where a new document is staged.
    pub closed spec fn spec_tmp_config_path(self) -> Seq<char> {
        self.tmp_config_path@
    }

    /// The current snapshot.
    pub closed spec fn spec_config(self) -> ConfigV {
        self.config@
    }

    /// Build the store from the document read from `<db_path>/config.json`,
    /// or from nothing when the file does not exist: a missing file yields
    /// the default config, every document the writer produces loads back
    /// to the config it was written from, and malformed content is an
    /// error.
    pub fn load(db_path: &str, file: Option<&str>) -> (r: Result<DatabaseConfigStore, Error>)
        ensures
            match r {
                Ok(st) => {
                    &&& st.spec_config_path() == db_path@ + "/config.json"@
                    &&& st.spec_tmp_config_path() == db_path@ + "/config.json~"@
                    &&& (file is None ==> st.spec_config() == ConfigV {
                        block_reads: false,
                        block_writes: false,
                        block_reason: None,
                    })
                    &&& (forall|rd: bool, wr: bool, rs: Option<Seq<char>>|
                        (file matches Some(text) && text@ == spec_encode_config(
                            ConfigV { block_reads: rd, block_writes: wr, block_reason: rs },
                        )) ==> st.spec_config() == ConfigV {
                            block_reads: rd,
                            block_writes: wr,
                            block_reason: rs,
                        })
                    &&& (forall|
                        has_rd: bool,
                        rd: bool,
                        has_wr: bool,
                        wr: bool,
                        has_rs: bool,
                        rs: Option<Seq<char>>,
                    |
                        (file matches Some(text) && text@ == #[trigger] spec_encode_subset(
                            has_rd,
                            rd,
                            has_wr,
                            wr,
                            has_rs,
                            rs,
                        )) ==> st.spec_config() == ConfigV {
                            block_reads: pick_bool(has_rd, rd),
                            block_writes: pick_bool(has_wr, wr),
                            block_reason: pick_reason(has_rs, rs),
                        })
                    &&& (forall|k: Seq<char>, w: Seq<char>, rd: bool, wr: bool, rs: Option<
                        Seq<char>,
                    >|
                        (file matches Some(text) && unknown_key(k) && text@
                            == #[trigger] spec_encode_with_unknown(
                            k,
                            w,
                            ConfigV { block_reads: rd, block_writes: wr, block_reason: rs },
                        )) ==> st.spec_config() == ConfigV {
                            block_reads: rd,
                            block_writes: wr,
                            block_reason: rs,
                        })
                    &&& ((file matches Some(text) && text@ == "{}"@) ==> st.spec_config()
                        == ConfigV {
                        block_reads: false,
                        block_writes: false,
                        block_reason: None,
                    })
                },
                Err(e) => file is Some && e matches Error::InvalidConfig,
            },
            (forall|rd: bool, wr: bool, rs: Option<Seq<char>>|
                (file matches Some(text) && text@ == #[trigger] spec_encode_config(
                    ConfigV { block_reads: rd, block_writes: wr, block_reason: rs },
                )) ==> r is Ok),
            (forall|has_rd: bool, rd: bool, has_wr: bool, wr: bool, has_rs: bool, rs: Option<
                Seq<char>,
            >|
                (file matches Some(text) && text@ == #[trigger] spec_encode_subset(
                    has_rd,
                    rd,
                    has_wr,
                    wr,
                    has_rs,
                    rs,
                )) ==> r is Ok),
            (forall|k: Seq<char>, w: Seq<char>, rd: bool, wr: bool, rs: Option<Seq<char>>|
                (file matches Some(text) && unknown_key(k) && text@
                    == #[trigger] spec_encode_with_unknown(
                    k,
                    w,
                    ConfigV { block_reads: rd, block_writes: wr, block_reason: rs },
                )) ==> r is Ok),
            (forall|rest: Seq<char>|
                (file matches Some(text) && text@ == #[trigger] ("{"@ + ("\"block_reads\":"@
                    + rest)) && !lit_at(text@, spec_ws_end(text@, 15), "true"@) && !lit_at(
                    text@,
                    spec_ws_end(text@, 15),
                    "false"@,
                )) ==> r is Err),
            (forall|rest: Seq<char>|
                (file matches Some(text) && text@ == #[trigger] ("{"@ + ("\"block_writes\":"@
                    + rest)) && !lit_at(text@, spec_ws_end(text@, 16), "true"@) && !lit_at(
                    text@,
                    spec_ws_end(text@, 16),
                    "false"@,
                )) ==> r is Err),
            (forall|rest: Seq<char>|
                (file matches Some(text) && text@ == #[trigger] ("{"@ + ("\"block_reason\":"@
                    + rest)) && !lit_at(text@, spec_ws_end(text@, 16), "null"@) && (spec_ws_end(
                    text@,
                    16,
                ) < text@.len() ==> text@[spec_ws_end(text@, 16)] != '"')) ==> r is Err),
            (file matches Some(text) && not_an_object(text@)) ==> r is Err,
            (file matches Some(text) && text@ == "{}"@) ==> r is Ok,
            file matches Some(text) ==> ((r is Ok) ==> opens_object_member(text@)
                && closes_object(text@)),
    {
        let mut config_path = db_path.to_owned();
        config_path.append("/config.json");
        let mut tmp_config_path = db_path.to_owned();
        tmp_config_path.append("/config.json~");
        let config = match file {
            None => DatabaseConfig::default(),
            Some(text) => match DatabaseConfig::from_json(text) {
                Ok(c) => c,
                Err(e) => {
                    proof {
                        assert forall|rd: bool, wr: bool, rs: Option<Seq<char>>|
                            text@ != spec_encode_config(
                                ConfigV { block_reads: rd, block_writes: wr, block_reason: rs },
                            ) by {
                            if text@ == spec_encode_config(
                                ConfigV { block_reads: rd, block_writes: wr, block_reason: rs },
                            ) {
                                assert(false);
                            }
                        }
                        assert forall|
                            has_rd: bool,
                            rd: bool,
                            has_wr: bool,
                            wr: bool,
                            has_rs: bool,
                            rs: Option<Seq<char>>,
                        |
                            text@ != #[trigger] spec_encode_subset(
                                has_rd,
                                rd,
                                has_wr,
                                wr,
                                has_rs,
                                rs,
                            ) by {
                            if text@ == spec_encode_subset(has_rd, rd, has_wr, wr, has_rs, rs) {
                                assert(false);
                            }
                        }
                        assert forall|k: Seq<char>, w: Seq<char>, rd: bool, wr: bool, rs: Option<
                            Seq<char>,
                        >|
                            !(unknown_key(k) && text@ == #[trigger] spec_encode_with_unknown(
                                k,
                                w,
                                ConfigV { block_reads: rd, block_writes: wr, block_reason: rs },
                            )) by {
                            if unknown_key(k) && text@ == spec_encode_with_unknown(
                                k,
                                w,
                                ConfigV { block_reads: rd, block_writes: wr, block_reason: rs },
                            ) {
                                assert(false);
                            }
                        }
                    }
                    return Err(e);
                },
            },
        };
        Ok(DatabaseConfigStore { config_path, tmp_config_path, config })
    }

    /// A store for tests: no paths, default config.
    pub fn new_test() -> (r: DatabaseConfigStore)
        ensures
            r.spec_config_path().len() == 0,
            r.spec_tmp_config_path().len() == 0,
            r.spec_config() == (ConfigV {
                block_reads: false,
                block_writes: false,
                block_reason: None,
            }),
    {
        DatabaseConfigStore {
            config_path: String::new(),
            tmp_config_path: String::new(),
            config: DatabaseConfig::default(),
        }
    }

    /// The current snapshot; readers get a consistent copy and never block
    /// a writer.
    pub fn get(&self) -> (r: DatabaseConfig)
        ensures
            r@ == self.spec_config(),
    {
        self.config.clone()
    }

    /// The document to stage for `config`: the runtime writes it to the
    /// staging path, then renames the staging path over the live path.
    pub fn store_document(&self, config: &DatabaseConfig) -> (r: String)
        ensures
            r@ == spec_encode_config(config@),
    {
        config.to_json()
    }

    /// Commit the snapshot once the rename succeeded. On a write or rename
    /// failure the runtime never calls this, so the snapshot stays what it
    /// was and readers keep seeing the prior config.
    pub fn commit_store(&mut self, config: DatabaseConfig)
        ensures
            final(self).spec_config() == config@,
            final(self).spec_config_path() == old(self).spec_config_path(),
            final(self).spec_tmp_config_path() == old(self).spec_tmp_config_path(),
    {
        self.config = config;
    }

    /// The live document's path.
    pub fn config_path(&self) -> (r: &String)
        ensures
            r@ == self.spec_config_path(),
    {
        &self.config_path
    }

    /// The staging path.
    pub fn tmp_config_path(&self) -> (r: &String)
        ensures
            r@ == self.spec_tmp_config_path(),
    {
        &self.tmp_config_path
    }
}

} // verus!

//! The identity credential map written into a fresh namespace.

use vstd::prelude::*;
use crate::text::{
    SPACE,
    spec_decimal,
    push_decimal,
    spec_tokens,
    tokenize,
    all_digits,
    spec_decimal_value,
    parse_u32,
    spec_content_lines,
    content_lines,
    is_space,
    is_digit,
    lemma_split_nl_single,
    spec_split_nl,
    lemma_tokens_append_token,
    lemma_tokens_append_space,
    lemma_decimal_round_trip,
};

verus! {

/// The single-entry identity map line "<id> <id> 1" that maps `id` to
/// itself with a range of one, for the user-id and group-id map files.
pub open spec fn spec_identity_map_line(id: nat) -> Seq<u8> {
    spec_decimal(id) + seq![SPACE] + spec_decimal(id) + seq![SPACE, 49u8]
}

/// Renders the identity map line for `id`.
pub fn identity_map_line(id: u32) -> (r: Vec<u8>)
    ensures
        r@ == spec_identity_map_line(id as nat),
{
    let mut out: Vec<u8> = Vec::new();
    push_decimal(id, &mut out);
    out.push(SPACE);
    push_decimal(id, &mut out);
    out.push(SPACE);
    out.push(49);
    proof {
        assert(out@ =~= spec_identity_map_line(id as nat));
    }
    out
}

/// One line of an identity-mapping table: the id inside the namespace, the
/// id outside it, and the length of the mapped range.
#[derive(Clone, Copy, PartialEq, Eq, Structural, Debug)]
pub struct MapEntry {
    /// First id of the range as seen inside the namespace.
    pub inside: u32,
    /// First id of the range as seen outside the namespace.
    pub outside: u32,
    /// Number of ids in the range.
    pub count: u32,
}

/// A token that reads as a 32-bit decimal number.
pub open spec fn entry_token_wf(t: Seq<u8>) -> bool {
    all_digits(t) && spec_decimal_value(t) <= u32::MAX
}

/// A line that parses as a full mapping entry: exactly three numeric
/// tokens.
pub open spec fn line_entry_wf(l: Seq<u8>) -> bool {
    let toks = spec_tokens(l);
    &&& toks.len() == 3
    &&& entry_token_wf(toks[0])
    &&& entry_token_wf(toks[1])
    &&& entry_token_wf(toks[2])
}

/// The mapping entry a well-formed line denotes.
pub open spec fn spec_line_entry(l: Seq<u8>) -> MapEntry {
    let toks = spec_tokens(l);
    MapEntry {
        inside: spec_decimal_value(toks[0]) as u32,
        outside: spec_decimal_value(toks[1]) as u32,
        count: spec_decimal_value(toks[2]) as u32,
    }
}

/// A line whose last token reads as a 32-bit range length.
pub open spec fn line_count_wf(l: Seq<u8>) -> bool {
    let toks = spec_tokens(l);
    toks.len() >= 1 && entry_token_wf(toks.last())
}

/// The range length a line reports: its last token's value.
pub open spec fn spec_line_count(l: Seq<u8>) -> nat {
    spec_decimal_value(spec_tokens(l).last())
}

/// The number of ids mapped by the first `k` lines together.
pub open spec fn spec_total_count(lines: Seq<Seq<u8>>, k: int) -> nat
    decreases k,
{
    if k <= 0 {
        0
    } else {
        spec_total_count(lines, k - 1) + spec_line_count(lines[k - 1])
    }
}

/// Every line of the table content has a readable range length.
pub open spec fn map_content_wf(s: Seq<u8>) -> bool {
    forall|i: int| 0 <= i < spec_content_lines(s).len() ==> line_count_wf(
        #[trigger] spec_content_lines(s)[i],
    )
}

/// Every line of the table content parses as a full mapping entry.
pub open spec fn map_entries_wf(s: Seq<u8>) -> bool {
    forall|i: int| 0 <= i < spec_content_lines(s).len() ==> line_entry_wf(
        #[trigger] spec_content_lines(s)[i],
    )
}

/// Decides from the content of an identity-mapping table whether it maps
/// at most one id: the sum of the per-line range lengths is at most one.
///
/// Returns nothing when some line's range length cannot be read.
pub fn is_single_identity_map(content: &Vec<u8>) -> (r: Option<bool>)
    ensures
        r is Some <==> map_content_wf(content@),
        r matches Some(b) ==> (b <==> spec_total_count(
            spec_content_lines(content@),
            spec_content_lines(content@).len() as int,
        ) <= 1),
{
    let lines = content_lines(content);
    let n = lines.len();
    let mut capped: u64 = 0;
    let mut k: usize = 0;
    while k < n
        invariant
            k <= n,
            n == lines@.len(),
            lines.deep_view() == spec_content_lines(content@),
            forall|i: int| 0 <= i < k ==> line_count_wf(#[trigger] lines.deep_view()[i]),
            capped <= 2,
            capped as nat <= spec_total_count(lines.deep_view(), k as int),
            capped as nat == spec_total_count(lines.deep_view(), k as int) || capped == 2,
        decreases n - k,
    {
        proof {
            assert(lines.deep_view()[k as int] == lines@[k as int]@);
        }
        let toks = tokenize(&lines[k]);
        if toks.len() == 0 {
            proof {
                assert(!line_count_wf(lines.deep_view()[k as int]));
            }
            return None;
        }
        proof {
            assert(toks.deep_view()[toks@.len() - 1] == toks@[toks@.len() - 1]@);
        }
        match parse_u32(&toks[toks.len() - 1]) {
            Some(v) => {
                let add = if v >= 2 { 2u64 } else { v as u64 };
                capped = capped + add;
                if capped > 2 {
                    capped = 2;
                }
                k += 1;
            },
            None => {
                proof {
                    assert(!line_count_wf(lines.deep_view()[k as int]));
                }
                return None;
            },
        }
    }
    Some(capped <= 1)
}

/// Parses the full content of an identity-mapping table into its entries.
///
/// Returns nothing exactly when some line is not three numeric tokens.
pub fn parse_map_entries(content: &Vec<u8>) -> (r: Option<Vec<MapEntry>>)
    ensures
        r is Some <==> map_entries_wf(content@),
        r matches Some(es) ==> {
            &&& es@.len() == spec_content_lines(content@).len()
            &&& forall|i: int| 0 <= i < es@.len() ==> es@[i] == spec_line_entry(
                #[trigger] spec_content_lines(content@)[i],
            )
        },
{
    let lines = content_lines(content);
    let n = lines.len();
    let mut es: Vec<MapEntry> = Vec::new();
    let mut k: usize = 0;
    while k < n
        invariant
            k <= n,
            n == lines@.len(),
            lines.deep_view() == spec_content_lines(content@),
            es@.len() == k,
            forall|i: int| 0 <= i < k ==> line_entry_wf(#[trigger] lines.deep_view()[i]),
            forall|i: int| 0 <= i < k ==> es@[i] == spec_line_entry(
                #[trigger] lines.deep_view()[i],
            ),
        decreases n - k,
    {
        proof {
            assert(lines.deep_view()[k as int] == lines@[k as int]@);
        }
        let toks = tokenize(&lines[k]);
        if toks.len() != 3 {
            proof {
                assert(!line_entry_wf(lines.deep_view()[k as int]));
            }
            return None;
        }
        proof {
            assert(toks.deep_view()[0] == toks@[0]@);
            assert(toks.deep_view()[1] == toks@[1]@);
            assert(toks.deep_view()[2] == toks@[2]@);
        }
        let inside = match parse_u32(&toks[0]) {
            Some(v) => v,
            None => {
                proof {
                    assert(!line_entry_wf(lines.deep_view()[k as int]));
                }
                return None;
            },
        };
        let outside = match parse_u32(&toks[1]) {
            Some(v) => v,
            None => {
                proof {
                    assert(!line_entry_wf(lines.deep_view()[k as int]));
                }
                return None;
            },
        };
        let count = match parse_u32(&toks[2]) {
            Some(v) => v,
            None => {
                proof {
                    assert(!line_entry_wf(lines.deep_view()[k as int]));
                }
                return None;
            },
        };
        es.push(MapEntry { inside, outside, count });
        k += 1;
    }
    Some(es)
}

proof fn lemma_identity_map_structure(id: nat)
    ensures
        spec_content_lines(spec_identity_map_line(id)) == seq![spec_identity_map_line(id)],
        spec_tokens(spec_identity_map_line(id)) == seq![
            spec_decimal(id),
            spec_decimal(id),
            seq![49u8],
        ],
        all_digits(spec_decimal(id)),
        spec_decimal_value(spec_decimal(id)) == id,
{
    let d = spec_decimal(id);
    let content = spec_identity_map_line(id);
    lemma_decimal_round_trip(id);
    assert forall|i: int| 0 <= i < d.len() implies !is_space(d[i]) && d[i] != 10u8 by {
        assert(is_digit(d[i]));
    }

    let s0 = Seq::<u8>::empty();
    assert(spec_tokens(s0) =~~= Seq::<Seq<u8>>::empty());
    lemma_tokens_append_token(s0, d);
    assert(s0 + d =~= d);
    assert(spec_tokens(d) =~~= seq![d]);

    lemma_tokens_append_space(d, SPACE);
    let s2 = d + seq![SPACE];
    assert(d.push(SPACE) =~= s2);
    assert(spec_tokens(s2) =~~= seq![d]);

    lemma_tokens_append_token(s2, d);
    let s3 = s2 + d;
    assert(spec_tokens(s3) =~~= seq![d, d]);

    lemma_tokens_append_space(s3, SPACE);
    let s4 = s3 + seq![SPACE];
    assert(s3.push(SPACE) =~= s4);
    assert(spec_tokens(s4) =~~= seq![d, d]);

    lemma_tokens_append_token(s4, seq![49u8]);
    assert(!is_space(49u8));
    let s5 = s4 + seq![49u8];
    assert(spec_tokens(s5) =~~= seq![d, d, seq![49u8]]);

    assert(content =~= s5);
    assert(spec_tokens(content) =~~= seq![d, d, seq![49u8]]);

    assert forall|i: int| 0 <= i < content.len() implies content[i] != 10u8 by {
        if i < d.len() {
            assert(content[i] == d[i]);
        } else if i == d.len() {
            assert(content[i] == SPACE);
        } else if i < d.len() + 1 + d.len() {
            assert(content[i] == d[i - d.len() - 1]);
        }
    }
    lemma_split_nl_single(content);
    assert(content.len() > 0);
    assert(spec_split_nl(content).last() == content);
    assert(content != Seq::<u8>::empty());
    assert(spec_content_lines(content) =~~= seq![content]);
}

/// Law: the identity map line for `id` reads back as exactly one mapping
/// entry, sending `id` to itself with a range length of one.
pub proof fn lemma_identity_map_reads_back(id: nat)
    requires
        id <= u32::MAX,
    ensures
        ({
            let lines = spec_content_lines(spec_identity_map_line(id));
            &&& lines.len() == 1
            &&& line_entry_wf(lines[0])
            &&& spec_line_entry(lines[0]) == (MapEntry {
                inside: id as u32,
                outside: id as u32,
                count: 1u32,
            })
        }),
{
    lemma_identity_map_structure(id);
    let one = seq![49u8];
    assert(one.drop_last() =~= Seq::<u8>::empty());
    assert(spec_decimal_value(Seq::<u8>::empty()) == 0);
    assert(spec_decimal_value(one) == 1);
    assert(all_digits(one));
}

/// Law: immediately after the identity map line for `id` is written, the
/// sandbox probe reads the table as mapping at most one id.
pub proof fn lemma_probe_after_identity_map(id: nat)
    requires
        id <= u32::MAX,
    ensures
        map_content_wf(spec_identity_map_line(id)),
        spec_total_count(
            spec_content_lines(spec_identity_map_line(id)),
            spec_content_lines(spec_identity_map_line(id)).len() as int,
        ) <= 1,
{
    lemma_identity_map_structure(id);
    let content = spec_identity_map_line(id);
    let lines = spec_content_lines(content);
    let one = seq![49u8];
    assert(one.drop_last() =~= Seq::<u8>::empty());
    assert(spec_decimal_value(Seq::<u8>::empty()) == 0);
    assert(spec_decimal_value(one) == 1);
    assert(all_digits(one));
    assert(spec_tokens(lines[0]).last() == one);
    assert(spec_line_count(lines[0]) == 1);
    assert(spec_total_count(lines, 1) == spec_total_count(lines, 0) + 1);
}

/// The token "deny" written to the setgroups control file before the
/// credential maps; newer kernels refuse the map writes without it.
pub open spec fn deny_token() -> Seq<u8> {
    seq![100u8, 101u8, 110u8, 121u8]
}

/// Renders the setgroups deny token.
pub fn setgroups_deny_token() -> (r: Vec<u8>)
    ensures
        r@ == deny_token(),
{
    let mut r: Vec<u8> = Vec::new();
    r.push(100);
    r.push(101);
    r.push(110);
    r.push(121);
    proof {
        assert(r@ =~= deny_token());
    }
    r
}

} // verus!

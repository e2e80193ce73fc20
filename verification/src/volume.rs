//! Volume specifications: a source path bound over a destination path.
//!
//! The textual form is `src:dest` — exactly two colon-delimited fields,
//! neither empty. A mount-list file holds one such specification per line;
//! lines that start with `#` or hold only whitespace are ignored.

use vstd::prelude::*;
use crate::text::{is_space, is_space_byte, copy_bytes};

verus! {

/// The byte that separates the two fields of a textual volume
/// specification: ':'.
pub const COLON: u8 = 58;

/// The byte that opens a comment line in a mount-list file: '#'.
pub const HASH: u8 = 35;

/// A single bind-mount request: make `src` visible at `dest`.
/// Paths are raw bytes; they need not be valid text.
pub struct VolumeSpec {
    /// The existing directory whose content is to be re-exposed.
    pub src: Vec<u8>,
    /// The path at which it becomes visible.
    pub dest: Vec<u8>,
}

/// A field of a volume specification is well-formed when it is non-empty
/// and free of the separator byte.
pub open spec fn wf_field(s: Seq<u8>) -> bool {
    &&& s.len() > 0
    &&& forall|i: int| 0 <= i < s.len() ==> s[i] != COLON
}

impl VolumeSpec {
    /// Both paths are non-empty and free of the separator byte.
    pub open spec fn wf(self) -> bool {
        wf_field(self.src@) && wf_field(self.dest@)
    }
}

/// Why a textual volume specification was rejected.
#[derive(Clone, Copy, PartialEq, Eq, Structural, Debug)]
pub enum VolumeError {
    /// The text does not split into exactly two colon-delimited fields.
    FieldCount,
    /// One of the two fields is empty.
    EmptyField,
}

/// Position `i` holds the one and only separator byte of `s`.
pub open spec fn is_only_colon(s: Seq<u8>, i: int) -> bool {
    &&& 0 <= i < s.len()
    &&& s[i] == COLON
    &&& forall|j: int| 0 <= j < s.len() && j != i ==> s[j] != COLON
}

/// The text splits into exactly two colon-delimited fields.
pub open spec fn exactly_one_colon(s: Seq<u8>) -> bool {
    exists|i: int| is_only_colon(s, i)
}

/// The text is a valid volume specification: exactly two colon-delimited
/// fields, neither empty.
pub open spec fn spec_valid_volume(s: Seq<u8>) -> bool {
    &&& exactly_one_colon(s)
    &&& s.len() > 0
    &&& s[0] != COLON
    &&& s[s.len() - 1] != COLON
}

/// The two fields of a valid volume specification.
pub open spec fn spec_fields(s: Seq<u8>) -> (Seq<u8>, Seq<u8>) {
    let i = choose|i: int| is_only_colon(s, i);
    (s.subrange(0, i), s.subrange(i + 1, s.len() as int))
}

/// Parses one textual volume specification.
///
/// Succeeds exactly on valid specifications and returns their two fields;
/// reports `FieldCount` exactly when the text does not split into two
/// colon-delimited fields, and `EmptyField` exactly when it does but one
/// field is empty.
pub fn parse_volume_spec(s: &Vec<u8>) -> (r: Result<VolumeSpec, VolumeError>)
    ensures
        r is Ok <==> spec_valid_volume(s@),
        r matches Ok(v) ==> {
            &&& v.wf()
            &&& s@ == v.src@ + seq![COLON] + v.dest@
            &&& v.src@ == spec_fields(s@).0
            &&& v.dest@ == spec_fields(s@).1
        },
        r == Err::<VolumeSpec, VolumeError>(VolumeError::FieldCount) <==> !exactly_one_colon(s@),
        r == Err::<VolumeSpec, VolumeError>(VolumeError::EmptyField) <==> (exactly_one_colon(s@)
            && !spec_valid_volume(s@)),
{
    let n = s.len();
    let mut first: usize = 0;
    let mut found = false;
    let mut second: usize = 0;
    let mut found2 = false;
    let mut k: usize = 0;
    while k < n
        invariant
            k <= n,
            n == s@.len(),
            !found ==> !found2 && forall|j: int| 0 <= j < k ==> s@[j] != COLON,
            found ==> first < k && s@[first as int] == COLON && forall|j: int|
                0 <= j < first ==> s@[j] != COLON,
            found && !found2 ==> forall|j: int| first < j < k ==> s@[j] != COLON,
            found2 ==> found && first < second < k && s@[second as int] == COLON,
        decreases n - k,
    {
        if s[k] == COLON {
            if !found {
                first = k;
                found = true;
            } else if !found2 {
                second = k;
                found2 = true;
            }
        }
        k += 1;
    }
    if !found {
        proof {
            assert(!exactly_one_colon(s@)) by {
                if exactly_one_colon(s@) {
                    let i = choose|i: int| is_only_colon(s@, i);
                    assert(s@[i] == COLON);
                }
            }
        }
        return Err(VolumeError::FieldCount);
    }
    if found2 {
        proof {
            assert(!exactly_one_colon(s@)) by {
                if exactly_one_colon(s@) {
                    let i = choose|i: int| is_only_colon(s@, i);
                    assert(i == first as int);
                    assert(i == second as int);
                }
            }
        }
        return Err(VolumeError::FieldCount);
    }
    proof {
        assert(is_only_colon(s@, first as int));
    }
    if first == 0 || first + 1 == n {
        return Err(VolumeError::EmptyField);
    }
    let mut src: Vec<u8> = Vec::new();
    let mut i: usize = 0;
    while i < first
        invariant
            i <= first,
            first < n,
            n == s@.len(),
            src@ == s@.subrange(0, i as int),
        decreases first - i,
    {
        src.push(s[i]);
        i += 1;
        proof {
            assert(src@ =~= s@.subrange(0, i as int));
        }
    }
    let mut dest: Vec<u8> = Vec::new();
    let mut j: usize = first + 1;
    while j < n
        invariant
            first + 1 <= j <= n,
            n == s@.len(),
            dest@ == s@.subrange(first + 1, j as int),
        decreases n - j,
    {
        dest.push(s[j]);
        j += 1;
        proof {
            assert(dest@ =~= s@.subrange(first + 1, j as int));
        }
    }
    let v = VolumeSpec { src, dest };
    proof {
        assert forall|t: int| 0 <= t < v.src@.len() implies v.src@[t] != COLON by {
            assert(v.src@[t] == s@[t]);
        }
        assert forall|t: int| 0 <= t < v.dest@.len() implies v.dest@[t] != COLON by {
            assert(v.dest@[t] == s@[first + 1 + t]);
        }
        assert(v.wf());
        assert(s@ =~= v.src@ + seq![COLON] + v.dest@);
        let i0 = choose|i: int| is_only_colon(s@, i);
        assert(i0 == first as int);
        assert(v.src@ == spec_fields(s@).0);
        assert(v.dest@ =~= spec_fields(s@).1);
    }
    Ok(v)
}

impl VolumeSpec {
    /// The textual form of the specification: the two fields joined by the
    /// separator byte.
    pub fn serialize(&self) -> (r: Vec<u8>)
        ensures
            r@ == self.src@ + seq![COLON] + self.dest@,
    {
        let mut r = copy_bytes(&self.src);
        r.push(COLON);
        let n = self.dest.len();
        let mut k: usize = 0;
        while k < n
            invariant
                k <= n,
                n == self.dest@.len(),
                r@ == self.src@ + seq![COLON] + self.dest@.subrange(0, k as int),
            decreases n - k,
        {
            r.push(self.dest[k]);
            k += 1;
            proof {
                assert(r@ =~= self.src@ + seq![COLON] + self.dest@.subrange(0, k as int));
            }
        }
        proof {
            assert(self.dest@.subrange(0, 0) =~= Seq::<u8>::empty());
            assert(self.src@ + seq![COLON] + self.dest@.subrange(0, 0) =~= self.src@ + seq![
                COLON
            ]);
            assert(self.dest@.subrange(0, n as int) =~= self.dest@);
        }
        r
    }
}

/// Law: joining two well-formed fields with the separator yields a valid
/// volume specification, and parsing recovers exactly those fields. With
/// the parser's contract this says that serializing and re-parsing a
/// well-formed specification gives it back unchanged.
pub proof fn lemma_volume_round_trip(src: Seq<u8>, dest: Seq<u8>)
    requires
        wf_field(src),
        wf_field(dest),
    ensures
        spec_valid_volume(src + seq![COLON] + dest),
        spec_fields(src + seq![COLON] + dest).0 == src,
        spec_fields(src + seq![COLON] + dest).1 == dest,
{
    let s = src + seq![COLON] + dest;
    assert(s.len() == src.len() + 1 + dest.len());
    assert(s[src.len() as int] == COLON);
    assert forall|j: int| 0 <= j < s.len() && j != src.len() implies s[j] != COLON by {
        if j < src.len() {
            assert(s[j] == src[j]);
        } else {
            assert(s[j] == dest[j - src.len() - 1]);
        }
    }
    assert(is_only_colon(s, src.len() as int));
    let i = choose|i: int| is_only_colon(s, i);
    assert(i == src.len() as int);
    assert(s[0] == src[0]);
    assert(s[s.len() - 1] == dest[dest.len() - 1]);
    assert(s.subrange(0, i) =~= src);
    assert(s.subrange(i + 1, s.len() as int) =~= dest);
}

/// Law: a valid volume specification is the join of its two parsed fields,
/// which are well-formed. With the parser's contract this says that parsing
/// a valid specification and re-serializing gives back the input text.
pub proof fn lemma_volume_rejoin(s: Seq<u8>)
    requires
        spec_valid_volume(s),
    ensures
        wf_field(spec_fields(s).0),
        wf_field(spec_fields(s).1),
        spec_fields(s).0 + seq![COLON] + spec_fields(s).1 == s,
{
    let i = choose|i: int| is_only_colon(s, i);
    assert(i != 0);
    assert(i != s.len() - 1);
    let src = s.subrange(0, i);
    let dest = s.subrange(i + 1, s.len() as int);
    assert forall|t: int| 0 <= t < src.len() implies src[t] != COLON by {
        assert(src[t] == s[t]);
    }
    assert forall|t: int| 0 <= t < dest.len() implies dest[t] != COLON by {
        assert(dest[t] == s[i + 1 + t]);
    }
    assert(src + seq![COLON] + dest =~= s);
}

/// A line of a mount-list file is ignored when it holds only whitespace or
/// starts the comment marker.
pub open spec fn ignored_line(l: Seq<u8>) -> bool {
    (forall|i: int| 0 <= i < l.len() ==> is_space(l[i])) || (l.len() > 0 && l[0] == HASH)
}

/// Executable twin of [`ignored_line`].
pub fn is_ignored_line(l: &Vec<u8>) -> (r: bool)
    ensures
        r == ignored_line(l@),
{
    let n = l.len();
    if n > 0 && l[0] == HASH {
        return true;
    }
    let mut k: usize = 0;
    while k < n
        invariant
            k <= n,
            n == l@.len(),
            !(l@.len() > 0 && l@[0] == HASH),
            forall|i: int| 0 <= i < k ==> is_space(l@[i]),
        decreases n - k,
    {
        if !is_space_byte(l[k]) {
            return false;
        }
        k += 1;
    }
    true
}

/// The field pairs of the applied specifications, for contracts.
pub open spec fn mounts_view(vs: Seq<VolumeSpec>) -> Seq<(Seq<u8>, Seq<u8>)> {
    vs.map_values(|v: VolumeSpec| (v.src@, v.dest@))
}

/// The field pairs collected from the first `k` lines: one pair per line
/// that is neither ignored nor invalid, in file order.
pub open spec fn spec_mounts(lines: Seq<Seq<u8>>, k: int) -> Seq<(Seq<u8>, Seq<u8>)>
    decreases k,
{
    if k <= 0 {
        Seq::<(Seq<u8>, Seq<u8>)>::empty()
    } else {
        let prev = spec_mounts(lines, k - 1);
        let l = lines[k - 1];
        if ignored_line(l) || !spec_valid_volume(l) {
            prev
        } else {
            prev.push(spec_fields(l))
        }
    }
}

/// A rejected line of a mount-list file.
pub struct LineError {
    /// 1-based number of the offending line.
    pub line_no: usize,
    /// The offending line, byte for byte.
    pub line: Vec<u8>,
    /// Why the line was rejected.
    pub err: VolumeError,
}

/// Parses the lines of a mount-list file in order.
///
/// Comment and whitespace-only lines are skipped. Processing stops at the
/// first malformed line, which is reported with its 1-based number and
/// text; the specifications parsed from the lines before it are returned
/// either way, in file order.
pub fn parse_mount_list(lines: &Vec<Vec<u8>>) -> (r: (Vec<VolumeSpec>, Option<LineError>))
    ensures
        forall|i: int| 0 <= i < r.0@.len() ==> (#[trigger] r.0@[i]).wf(),
        r.1 matches Some(e) ==> {
            let lv = lines.deep_view();
            &&& 1 <= e.line_no <= lv.len()
            &&& e.line@ == lv[e.line_no - 1]
            &&& !ignored_line(lv[e.line_no - 1])
            &&& !spec_valid_volume(lv[e.line_no - 1])
            &&& (e.err == VolumeError::FieldCount <==> !exactly_one_colon(lv[e.line_no - 1]))
            &&& forall|j: int| 0 <= j < e.line_no - 1 ==> ignored_line(#[trigger] lv[j])
                || spec_valid_volume(lv[j])
            &&& mounts_view(r.0@) == spec_mounts(lv, e.line_no - 1)
        },
        r.1 is None ==> {
            let lv = lines.deep_view();
            &&& forall|j: int| 0 <= j < lv.len() ==> ignored_line(#[trigger] lv[j])
                || spec_valid_volume(lv[j])
            &&& mounts_view(r.0@) == spec_mounts(lv, lv.len() as int)
        },
{
    let mut specs: Vec<VolumeSpec> = Vec::new();
    let n = lines.len();
    let mut k: usize = 0;
    proof {
        assert(mounts_view(specs@) =~= spec_mounts(lines.deep_view(), 0));
    }
    while k < n
        invariant
            k <= n,
            n == lines@.len(),
            forall|i: int| 0 <= i < specs@.len() ==> (#[trigger] specs@[i]).wf(),
            forall|j: int| 0 <= j < k ==> ignored_line(#[trigger] lines.deep_view()[j])
                || spec_valid_volume(lines.deep_view()[j]),
            mounts_view(specs@) == spec_mounts(lines.deep_view(), k as int),
        decreases n - k,
    {
        proof {
            assert(lines.deep_view()[k as int] == lines@[k as int]@);
        }
        if !is_ignored_line(&lines[k]) {
            match parse_volume_spec(&lines[k]) {
                Ok(v) => {
                    specs.push(v);
                    proof {
                        assert(mounts_view(specs@) =~= spec_mounts(
                            lines.deep_view(),
                            k + 1,
                        ));
                    }
                },
                Err(e) => {
                    let line = copy_bytes(&lines[k]);
                    return (specs, Some(LineError { line_no: k + 1, line, err: e }));
                },
            }
        } else {
            proof {
                assert(mounts_view(specs@) =~= spec_mounts(lines.deep_view(), k + 1));
            }
        }
        k += 1;
    }
    (specs, None)
}

} // verus!

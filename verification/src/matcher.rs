//! Deciding whether a queried name belongs to a configured domain.
//!
//! Names and configuration are handled as bytes. The separators (`.` and `,`)
//! and the letters that case folding touches are all ASCII, and an ASCII byte
//! never occurs inside the encoding of another character, so the decisions
//! made here on bytes are those one would make on the decoded text.

use vstd::prelude::*;
use vstd::slice::slice_subrange;
use vstd::string::StringSliceAdditionalSpecFns;

verus! {

/// The label separator, `.`.
pub const DOT: u8 = 0x2e;

/// The separator of the configured domains, `,`.
pub const COMMA: u8 = 0x2c;

/// The domain list used when nothing is configured: the single domain `test`.
pub open spec fn default_domains() -> Seq<Seq<u8>> {
    seq![seq![0x74u8, 0x65u8, 0x73u8, 0x74u8]]
}

/// `b` with an ASCII upper-case letter replaced by its lower-case form.
pub open spec fn fold_byte(b: u8) -> u8 {
    if 0x41 <= b <= 0x5a {
        (b + 0x20) as u8
    } else {
        b
    }
}

/// `a` and `b` are equal up to the case of ASCII letters.
pub open spec fn same_ignoring_case(a: Seq<u8>, b: Seq<u8>) -> bool {
    &&& a.len() == b.len()
    &&& forall|i: int| 0 <= i < a.len() ==> fold_byte(#[trigger] a[i]) == fold_byte(b[i])
}

/// `i` is the position of the last `.` in `name`.
pub open spec fn is_last_dot(name: Seq<u8>, i: int) -> bool {
    &&& 0 <= i < name.len()
    &&& name[i] == DOT
    &&& forall|j: int| i < j < name.len() ==> #[trigger] name[j] != DOT
}

/// `name` holds a `.` somewhere.
pub open spec fn has_dot(name: Seq<u8>) -> bool {
    exists|i: int| 0 <= i < name.len() && #[trigger] name[i] == DOT
}

/// What follows the last `.` of `name`, or `None` for a name without `.`.
pub open spec fn suffix_of(name: Seq<u8>) -> Option<Seq<u8>> {
    if exists|i: int| is_last_dot(name, i) {
        let i = choose|i: int| is_last_dot(name, i);
        Some(name.subrange(i + 1, name.len() as int))
    } else {
        None
    }
}

/// Some entry of `domains` equals `suffix` up to ASCII case.
pub open spec fn accepts(domains: Seq<Seq<u8>>, suffix: Seq<u8>) -> bool {
    exists|k: int| 0 <= k < domains.len() && same_ignoring_case(suffix, #[trigger] domains[k])
}

/// `name` has a `.`, and what follows its last `.` is one of `domains`.
pub open spec fn in_domains(name: Seq<u8>, domains: Seq<Seq<u8>>) -> bool {
    match suffix_of(name) {
        Some(suffix) => accepts(domains, suffix),
        None => false,
    }
}

/// `name` is valid UTF-8 text, has a `.`, and what follows its last `.` is one
/// of `domains`.
pub open spec fn spec_matches(name: Seq<u8>, domains: Seq<Seq<u8>>) -> bool {
    vstd::utf8::valid_utf8(name) && in_domains(name, domains)
}

/// The fields of a comma-separated list: `s` cut at every `,`.
///
/// There is always one field more than there are commas; the empty list has
/// one empty field, and a trailing comma is followed by an empty field.
pub open spec fn fields_of(s: Seq<u8>) -> Seq<Seq<u8>>
    decreases s.len(),
{
    if s.len() == 0 {
        seq![Seq::<u8>::empty()]
    } else {
        let before = fields_of(s.drop_last());
        if s.last() == COMMA {
            before.push(Seq::<u8>::empty())
        } else {
            before.drop_last().push(before.last().push(s.last()))
        }
    }
}

/// The accepted domains for a configuration value: its comma-separated
/// fields, or the default list where the setting is absent.
pub open spec fn domains_of(config: Option<Seq<u8>>) -> Seq<Seq<u8>> {
    match config {
        Some(c) => fields_of(c),
        None => default_domains(),
    }
}

/// The byte sequences held by a vector of byte vectors.
pub open spec fn views(v: Seq<Vec<u8>>) -> Seq<Seq<u8>> {
    Seq::new(v.len(), |i: int| v[i]@)
}

/// A name has at most one last `.`.
pub proof fn lemma_last_dot_unique(name: Seq<u8>, i: int, j: int)
    requires
        is_last_dot(name, i),
        is_last_dot(name, j),
    ensures
        i == j,
{
    if i < j {
        assert(name[j] != DOT);
    } else if j < i {
        assert(name[i] != DOT);
    }
}

/// Where `i` is the last `.` of `name`, the suffix of `name` starts after it.
pub proof fn lemma_suffix_at(name: Seq<u8>, i: int)
    requires
        is_last_dot(name, i),
    ensures
        suffix_of(name) == Some(name.subrange(i + 1, name.len() as int)),
{
    let c = choose|c: int| is_last_dot(name, c);
    lemma_last_dot_unique(name, i, c);
}

/// A name without `.` has no suffix.
pub proof fn lemma_no_dot_no_suffix(name: Seq<u8>)
    requires
        !has_dot(name),
    ensures
        suffix_of(name).is_none(),
{
    if exists|i: int| is_last_dot(name, i) {
        let i = choose|i: int| is_last_dot(name, i);
        assert(name[i] == DOT);
    }
}

/// Lower-cases an ASCII upper-case letter and leaves every other byte alone.
pub fn fold_ascii(b: u8) -> (r: u8)
    ensures
        r == fold_byte(b),
{
    if 0x41 <= b && b <= 0x5a {
        b + 0x20
    } else {
        b
    }
}

/// Finds the last `.` of `name`.
pub fn rfind_dot(name: &[u8]) -> (r: Option<usize>)
    ensures
        match r {
            Some(i) => is_last_dot(name@, i as int),
            None => !has_dot(name@),
        },
{
    let mut i: usize = name.len();
    while i > 0
        invariant
            i <= name.len(),
            forall|j: int| i <= j < name.len() ==> #[trigger] name@[j] != DOT,
        decreases i,
    {
        i -= 1;
        if name[i] == DOT {
            return Some(i);
        }
    }
    None
}

/// Compares two byte strings, ignoring the case of ASCII letters.
pub fn eq_ignore_ascii_case(a: &[u8], b: &[u8]) -> (r: bool)
    ensures
        r == same_ignoring_case(a@, b@),
{
    let n: usize = a.len();
    if n != b.len() {
        return false;
    }
    let mut j: usize = 0;
    while j < n
        invariant
            j <= n,
            n == a@.len(),
            n == b@.len(),
            forall|k: int| 0 <= k < j ==> fold_byte(#[trigger] a@[k]) == fold_byte(b@[k]),
        decreases n - j,
    {
        if fold_ascii(a[j]) != fold_ascii(b[j]) {
            return false;
        }
        j += 1;
    }
    true
}

/// Cuts a comma-separated list into its fields.
pub fn split_domains(config: &[u8]) -> (r: Vec<Vec<u8>>)
    ensures
        views(r@) == fields_of(config@),
{
    let mut done: Vec<Vec<u8>> = Vec::new();
    let mut field: Vec<u8> = Vec::new();
    let mut i: usize = 0;
    assert(config@.subrange(0, 0) =~= Seq::<u8>::empty());
    assert(views(done@).push(field@) =~= fields_of(config@.subrange(0, 0)));
    while i < config.len()
        invariant
            i <= config.len(),
            views(done@).push(field@) == fields_of(config@.subrange(0, i as int)),
        decreases config.len() - i,
    {
        let ghost before = config@.subrange(0, i as int);
        let ghost now = config@.subrange(0, i + 1);
        assert(now.drop_last() =~= before);
        assert(now.last() == config@[i as int]);
        let b: u8 = config[i];
        if b == COMMA {
            let ghost held = views(done@).push(field@);
            done.push(field);
            field = Vec::new();
            assert(views(done@) =~= held);
        } else {
            let ghost held = views(done@).push(field@);
            field.push(b);
            assert(views(done@).push(field@) =~= held.drop_last().push(held.last().push(b)));
        }
        i += 1;
    }
    assert(config@.subrange(0, i as int) =~= config@);
    let ghost held = views(done@).push(field@);
    done.push(field);
    assert(views(done@) =~= held);
    done
}

/// The configuration value as bytes, where the setting is present.
pub open spec fn config_view(config: Option<&str>) -> Option<Seq<u8>> {
    match config {
        Some(c) => Some(c.spec_bytes()),
        None => None,
    }
}

/// The accepted domains for a configuration value; `None` stands for a
/// setting that is absent or could not be read as text.
pub fn domain_list(config: Option<&str>) -> (r: Vec<Vec<u8>>)
    ensures
        views(r@) == domains_of(config_view(config)),
{
    match config {
        Some(c) => split_domains(c.as_bytes()),
        None => {
            let mut test: Vec<u8> = Vec::new();
            test.push(0x74);
            test.push(0x65);
            test.push(0x73);
            test.push(0x74);
            let mut r: Vec<Vec<u8>> = Vec::new();
            r.push(test);
            assert(views(r@) =~= default_domains()) by {
                assert(views(r@)[0] =~= default_domains()[0]);
            }
            r
        },
    }
}

/// Looks for a domain that equals `suffix` up to ASCII case.
pub fn suffix_accepted(suffix: &[u8], domains: &Vec<Vec<u8>>) -> (r: bool)
    ensures
        r == accepts(views(domains@), suffix@),
{
    let mut k: usize = 0;
    while k < domains.len()
        invariant
            k <= domains.len(),
            forall|m: int|
                0 <= m < k ==> !same_ignoring_case(suffix@, #[trigger] views(domains@)[m]),
        decreases domains.len() - k,
    {
        assert(views(domains@)[k as int] == domains@[k as int]@);
        if eq_ignore_ascii_case(suffix, domains[k].as_slice()) {
            return true;
        }
        k += 1;
    }
    false
}

/// Decides whether the bytes `name` have a `.` and end, after their last `.`,
/// in one of `domains`. Nothing is asked of the encoding of `name`.
pub fn matches_bytes(name: &[u8], domains: &Vec<Vec<u8>>) -> (r: bool)
    ensures
        r == in_domains(name@, views(domains@)),
{
    match rfind_dot(name) {
        None => {
            proof {
                lemma_no_dot_no_suffix(name@);
            }
            false
        },
        Some(i) => {
            proof {
                lemma_suffix_at(name@, i as int);
            }
            let len: usize = name.len();
            assert(i < len);
            suffix_accepted(slice_subrange(name, i + 1, len), domains)
        },
    }
}

/// Says whether `bytes` is valid UTF-8.
///
/// Trusted: this calls `core::str::from_utf8`, which succeeds exactly on the
/// byte strings that are valid UTF-8; the contract equates that with vstd's
/// definition of a valid encoding.
#[verifier::external_body]
fn is_text(bytes: &[u8]) -> (r: bool)
    ensures
        r == vstd::utf8::valid_utf8(bytes@),
{
    core::str::from_utf8(bytes).is_ok()
}

/// Decides whether `name` belongs to one of `domains`: it must be valid
/// text, and what follows its last `.` must equal one of the domains up to
/// ASCII case. A name that is not valid text, or has no `.`, never matches.
pub fn matches(name: &[u8], domains: &Vec<Vec<u8>>) -> (r: bool)
    ensures
        r == spec_matches(name@, views(domains@)),
{
    if !is_text(name) {
        return false;
    }
    matches_bytes(name, domains)
}

} // verus!

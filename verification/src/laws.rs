//! What holds of every lookup, proved from the definitions that the
//! contracts of the lookups are stated in.

use vstd::prelude::*;
use vstd::utf8::length_of_first_scalar;
use vstd::utf8::pop_first_scalar;
use vstd::utf8::valid_first_scalar;
use vstd::utf8::valid_utf8;
use crate::address::AddressFamily;
use crate::lookup::lookup_address;
use crate::lookup::lookup_status;
use crate::marshal::required_size;
use crate::matcher::accepts;
use crate::matcher::default_domains;
use crate::matcher::domains_of;
use crate::matcher::fields_of;
use crate::matcher::fold_byte;
use crate::matcher::has_dot;
use crate::matcher::in_domains;
use crate::matcher::is_last_dot;
use crate::matcher::lemma_no_dot_no_suffix;
use crate::matcher::lemma_suffix_at;
use crate::matcher::same_ignoring_case;
use crate::matcher::suffix_of;
use crate::matcher::COMMA;
use crate::matcher::DOT;
use crate::status::Status;

verus! {

/// Folding the case of a byte neither makes nor unmakes a `.`.
pub proof fn lemma_fold_keeps_dot(x: u8, y: u8)
    requires
        fold_byte(x) == fold_byte(y),
    ensures
        x == DOT <==> y == DOT,
{
}

/// Equality up to ASCII case is symmetric.
pub proof fn lemma_same_symmetric(a: Seq<u8>, b: Seq<u8>)
    requires
        same_ignoring_case(a, b),
    ensures
        same_ignoring_case(b, a),
{
    assert forall|i: int| 0 <= i < b.len() implies fold_byte(#[trigger] b[i]) == fold_byte(
        a[i],
    ) by {
        assert(fold_byte(a[i]) == fold_byte(b[i]));
    }
}

/// Equality up to ASCII case is transitive.
pub proof fn lemma_same_transitive(a: Seq<u8>, b: Seq<u8>, c: Seq<u8>)
    requires
        same_ignoring_case(a, b),
        same_ignoring_case(b, c),
    ensures
        same_ignoring_case(a, c),
{
    assert forall|i: int| 0 <= i < a.len() implies fold_byte(#[trigger] a[i]) == fold_byte(
        c[i],
    ) by {
        assert(fold_byte(a[i]) == fold_byte(b[i]));
        assert(fold_byte(b[i]) == fold_byte(c[i]));
    }
}

/// Two byte strings that are equal up to ASCII case have a `.` in the same
/// places.
pub proof fn lemma_same_keeps_dots(a: Seq<u8>, b: Seq<u8>)
    requires
        same_ignoring_case(a, b),
    ensures
        has_dot(a) <==> has_dot(b),
        forall|i: int| is_last_dot(a, i) <==> is_last_dot(b, i),
{
    assert forall|i: int| 0 <= i < a.len() implies (#[trigger] a[i] == DOT <==> b[i] == DOT) by {
        lemma_fold_keeps_dot(a[i], b[i]);
    }
    if has_dot(a) {
        let i = choose|i: int| 0 <= i < a.len() && #[trigger] a[i] == DOT;
        assert(b[i] == DOT);
    }
    if has_dot(b) {
        let i = choose|i: int| 0 <= i < b.len() && #[trigger] b[i] == DOT;
        assert(a[i] == DOT <==> b[i] == DOT);
    }
    assert forall|i: int| is_last_dot(a, i) <==> is_last_dot(b, i) by {
        if is_last_dot(a, i) {
            assert(a[i] == DOT <==> b[i] == DOT);
            assert forall|j: int| i < j < b.len() implies #[trigger] b[j] != DOT by {
                assert(a[j] == DOT <==> b[j] == DOT);
            }
        }
        if is_last_dot(b, i) {
            assert(a[i] == DOT <==> b[i] == DOT);
            assert forall|j: int| i < j < a.len() implies #[trigger] a[j] != DOT by {
                assert(b[j] != DOT);
            }
        }
    }
}

/// If `a` is in one of the domains, so is every `b` that equals `a` up to
/// ASCII case.
pub proof fn lemma_in_domains_carries_over(a: Seq<u8>, b: Seq<u8>, domains: Seq<Seq<u8>>)
    requires
        same_ignoring_case(a, b),
        in_domains(a, domains),
    ensures
        in_domains(b, domains),
{
    lemma_same_keeps_dots(a, b);
    let i = choose|i: int| is_last_dot(a, i);
    assert(is_last_dot(b, i));
    lemma_suffix_at(a, i);
    lemma_suffix_at(b, i);
    let sa = a.subrange(i + 1, a.len() as int);
    let sb = b.subrange(i + 1, b.len() as int);
    let k = choose|k: int| 0 <= k < domains.len() && same_ignoring_case(sa, #[trigger] domains[k]);
    assert forall|m: int| 0 <= m < sb.len() implies fold_byte(#[trigger] sb[m]) == fold_byte(
        sa[m],
    ) by {
        assert(sa[m] == a[i + 1 + m]);
        assert(sb[m] == b[i + 1 + m]);
        assert(fold_byte(a[i + 1 + m]) == fold_byte(b[i + 1 + m]));
    }
    assert(same_ignoring_case(sb, sa));
    lemma_same_transitive(sb, sa, domains[k]);
}

/// Matching ignores case: two names that differ only in the case of ASCII
/// letters are in the same domain lists.
pub proof fn lemma_matching_ignores_case(a: Seq<u8>, b: Seq<u8>, domains: Seq<Seq<u8>>)
    requires
        same_ignoring_case(a, b),
    ensures
        in_domains(a, domains) == in_domains(b, domains),
{
    lemma_same_symmetric(a, b);
    if in_domains(a, domains) {
        lemma_in_domains_carries_over(a, b, domains);
    }
    if in_domains(b, domains) {
        lemma_in_domains_carries_over(b, a, domains);
    }
}

/// Changing the case of ASCII letters keeps valid text valid.
pub proof fn lemma_text_stays_text(a: Seq<u8>, b: Seq<u8>)
    requires
        same_ignoring_case(a, b),
        valid_utf8(a),
    ensures
        valid_utf8(b),
    decreases a.len(),
{
    if a.len() > 0 {
        assert(fold_byte(a[0]) == fold_byte(b[0]));
        let w = length_of_first_scalar(a);
        assert(valid_first_scalar(a));
        assert(1 <= w <= 4 && w <= a.len());
        if a[0] < 0x80 {
            let b0 = b[0];
            assert(b0 < 0x80);
            assert((b0 & 0x7F) <= 0x7F) by (bit_vector);
        } else {
            assert forall|i: int| 0 <= i < w implies #[trigger] b[i] == a[i] by {
                assert(fold_byte(a[i]) == fold_byte(b[i]));
                assert(a[i] >= 0x80);
            }
        }
        assert(valid_first_scalar(b));
        assert(length_of_first_scalar(b) == w);
        let ra = pop_first_scalar(a);
        let rb = pop_first_scalar(b);
        assert(ra.len() == rb.len());
        assert forall|i: int| 0 <= i < ra.len() implies fold_byte(#[trigger] ra[i]) == fold_byte(
            rb[i],
        ) by {
            assert(ra[i] == a[w + i]);
            assert(rb[i] == b[w + i]);
            assert(fold_byte(a[w + i]) == fold_byte(b[w + i]));
        }
        lemma_text_stays_text(ra, rb);
    }
}

/// A lookup ignores case: for two names that differ only in the case of
/// ASCII letters it gives the same status and the same address.
pub proof fn lemma_lookup_ignores_case(
    a: Seq<u8>,
    b: Seq<u8>,
    family_raw: int,
    config: Option<Seq<u8>>,
    capacity: nat,
)
    requires
        same_ignoring_case(a, b),
    ensures
        lookup_status(a, family_raw, config, capacity) == lookup_status(
            b,
            family_raw,
            config,
            capacity,
        ),
        lookup_address(a, family_raw, config, capacity) == lookup_address(
            b,
            family_raw,
            config,
            capacity,
        ),
{
    lemma_same_symmetric(a, b);
    lemma_matching_ignores_case(a, b, domains_of(config));
    if valid_utf8(a) {
        lemma_text_stays_text(a, b);
    }
    if valid_utf8(b) {
        lemma_text_stays_text(b, a);
    }
}

/// A name made of anything, a `.`, and a dot-free tail that equals a listed
/// domain up to ASCII case is in the domain list.
pub proof fn lemma_labelled_name_in_domains(
    prefix: Seq<u8>,
    tail: Seq<u8>,
    domains: Seq<Seq<u8>>,
    k: int,
)
    requires
        0 <= k < domains.len(),
        same_ignoring_case(tail, domains[k]),
        !has_dot(domains[k]),
    ensures
        in_domains(prefix + seq![DOT] + tail, domains),
{
    let name = prefix + seq![DOT] + tail;
    let i = prefix.len() as int;
    lemma_same_keeps_dots(tail, domains[k]);
    assert(name[i] == DOT);
    assert forall|j: int| i < j < name.len() implies #[trigger] name[j] != DOT by {
        assert(name[j] == tail[j - i - 1]);
    }
    assert(is_last_dot(name, i));
    lemma_suffix_at(name, i);
    assert(name.subrange(i + 1, name.len() as int) =~= tail);
}

/// For every configured domain without a `.` in it, every name that is valid
/// text and ends in a `.` and that domain, in whatever case, resolves: into a
/// buffer that has room for the record, a lookup for IPv4 succeeds with
/// `127.0.0.1`, and a lookup for IPv6 succeeds with `::1`.
pub proof fn lemma_configured_domain_resolves(
    prefix: Seq<u8>,
    tail: Seq<u8>,
    config: Option<Seq<u8>>,
    k: int,
    family: AddressFamily,
    capacity: nat,
)
    requires
        0 <= k < domains_of(config).len(),
        same_ignoring_case(tail, domains_of(config)[k]),
        !has_dot(domains_of(config)[k]),
        valid_utf8(prefix + seq![DOT] + tail),
        required_size(family.spec_addr_len(), (prefix + seq![DOT] + tail).len()) <= capacity,
    ensures
        lookup_status(prefix + seq![DOT] + tail, family.spec_raw(), config, capacity)
            == Status::Success,
        lookup_address(prefix + seq![DOT] + tail, family.spec_raw(), config, capacity) == Some(
            family.loopback(),
        ),
        AddressFamily::Ipv4.loopback() == seq![127u8, 0u8, 0u8, 1u8],
        AddressFamily::Ipv6.loopback() == seq![
            0u8, 0u8, 0u8, 0u8, 0u8, 0u8, 0u8, 0u8,
            0u8, 0u8, 0u8, 0u8, 0u8, 0u8, 0u8, 1u8,
        ],
{
    lemma_labelled_name_in_domains(prefix, tail, domains_of(config), k);
}

/// A name without a `.` is not found, whatever the family, the configuration
/// and the buffer.
pub proof fn lemma_bare_label_not_found(
    name: Seq<u8>,
    family_raw: int,
    config: Option<Seq<u8>>,
    capacity: nat,
)
    requires
        !has_dot(name),
    ensures
        lookup_status(name, family_raw, config, capacity) == Status::NotFound,
{
    lemma_no_dot_no_suffix(name);
}

/// A name whose suffix is none of the configured domains is not found.
pub proof fn lemma_foreign_suffix_not_found(
    name: Seq<u8>,
    family_raw: int,
    config: Option<Seq<u8>>,
    capacity: nat,
)
    requires
        match suffix_of(name) {
            Some(suffix) => !accepts(domains_of(config), suffix),
            None => true,
        },
    ensures
        lookup_status(name, family_raw, config, capacity) == Status::NotFound,
{
}

/// The suffix of `name` is `test`, in whatever case.
pub open spec fn ends_in_test(name: Seq<u8>) -> bool {
    match suffix_of(name) {
        Some(suffix) => same_ignoring_case(suffix, seq![0x74u8, 0x65u8, 0x73u8, 0x74u8]),
        None => false,
    }
}

/// With no configuration, a name is in the domain list exactly if its suffix
/// is `test`, in whatever case; so a lookup finds exactly the names that are
/// valid text with that suffix.
pub proof fn lemma_default_accepts_only_test(name: Seq<u8>, family_raw: int, capacity: nat)
    ensures
        in_domains(name, domains_of(None)) <==> ends_in_test(name),
        lookup_status(name, family_raw, None, capacity) != Status::NotFound <==> valid_utf8(name)
            && ends_in_test(name),
{
    let test = seq![0x74u8, 0x65u8, 0x73u8, 0x74u8];
    assert(default_domains()[0] == test);
    match suffix_of(name) {
        Some(suffix) => {
            if same_ignoring_case(suffix, test) {
                assert(same_ignoring_case(suffix, default_domains()[0]));
            }
        },
        None => {},
    }
}

/// The fields of a list, written one after the other with a comma between
/// each two.
pub open spec fn joined(fields: Seq<Seq<u8>>) -> Seq<u8>
    decreases fields.len(),
{
    if fields.len() == 0 {
        Seq::<u8>::empty()
    } else if fields.len() == 1 {
        fields[0]
    } else {
        joined(fields.drop_last()) + seq![COMMA] + fields.last()
    }
}

/// Cutting a list into its fields loses nothing: the fields, joined by
/// commas, are the list.
pub proof fn lemma_fields_join_back(s: Seq<u8>)
    ensures
        fields_of(s).len() >= 1,
        joined(fields_of(s)) == s,
    decreases s.len(),
{
    if s.len() == 0 {
        assert(joined(fields_of(s)) =~= s);
    } else {
        lemma_fields_join_back(s.drop_last());
        let before = fields_of(s.drop_last());
        let now = fields_of(s);
        if s.last() == COMMA {
            assert(now.drop_last() =~= before);
            assert(joined(now) =~= s);
        } else if before.len() == 1 {
            assert(joined(now) =~= s);
        } else {
            assert(now.drop_last() =~= before.drop_last());
            assert(joined(now) =~= joined(before).push(s.last()));
            assert(joined(now) =~= s);
        }
    }
}

/// A list always has a field, and no field holds a comma.
pub proof fn lemma_fields_hold_no_comma(s: Seq<u8>)
    ensures
        fields_of(s).len() >= 1,
        forall|k: int, i: int|
            0 <= k < fields_of(s).len() && 0 <= i < fields_of(s)[k].len() ==> #[trigger] fields_of(
                s,
            )[k][i] != COMMA,
    decreases s.len(),
{
    if s.len() > 0 {
        lemma_fields_hold_no_comma(s.drop_last());
        let before = fields_of(s.drop_last());
        assert forall|k: int, i: int|
            0 <= k < fields_of(s).len() && 0 <= i < fields_of(s)[k].len() implies #[trigger] fields_of(
            s,
        )[k][i] != COMMA by {
            if s.last() == COMMA {
                if k < before.len() {
                    assert(fields_of(s)[k] == before[k]);
                }
            } else {
                if k < before.len() - 1 {
                    assert(fields_of(s)[k] == before[k]);
                } else {
                    if i < before.last().len() {
                        assert(fields_of(s)[k][i] == before[k][i]);
                    }
                }
            }
        }
    }
}

} // verus!

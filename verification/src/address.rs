//! Textual address handling: splitting an address string into groups,
//! validating hardware-address and IPv4 syntax, and decoding a hardware
//! address into its 6 bytes.

use vstd::prelude::*;

use crate::errors::WakeUpError;

verus! {

/// A character that hex decoding accepts: `0-9`, `a-f` or `A-F`.
pub open spec fn is_hex_digit(c: char) -> bool {
    (('0' as u32) <= (c as u32) && (c as u32) <= ('9' as u32)) || (('a' as u32) <= (c as u32)
        && (c as u32) <= ('f' as u32)) || (('A' as u32) <= (c as u32) && (c as u32) <= ('F' as u32))
}

/// The numeric value of a hex digit.
pub open spec fn hex_digit_val(c: char) -> u8 {
    if ('0' as u32) <= (c as u32) && (c as u32) <= ('9' as u32) {
        ((c as u32) - ('0' as u32)) as u8
    } else if ('a' as u32) <= (c as u32) && (c as u32) <= ('f' as u32) {
        ((c as u32) - ('a' as u32) + 10) as u8
    } else {
        ((c as u32) - ('A' as u32) + 10) as u8
    }
}

/// A decimal digit `0-9`.
pub open spec fn is_dec_digit(c: char) -> bool {
    ('0' as u32) <= (c as u32) && (c as u32) <= ('9' as u32)
}

/// The groups obtained by splitting `s` at every occurrence of `sep`, as
/// `str::split` yields them: there is always at least one group, and an empty
/// string yields one empty group.
pub open spec fn split_on(s: Seq<char>, sep: char) -> Seq<Seq<char>>
    decreases s.len(),
{
    if s.len() == 0 {
        seq![Seq::<char>::empty()]
    } else if s[0] == sep {
        seq![Seq::<char>::empty()] + split_on(s.drop_first(), sep)
    } else {
        let rest = split_on(s.drop_first(), sep);
        seq![seq![s[0]] + rest[0]] + rest.drop_first()
    }
}

/// Splitting yields at least one group.
pub proof fn lemma_split_on_nonempty(s: Seq<char>, sep: char)
    ensures
        split_on(s, sep).len() >= 1,
    decreases s.len(),
{
    if s.len() == 0 {
    } else if s[0] == sep {
        lemma_split_on_nonempty(s.drop_first(), sep);
    } else {
        lemma_split_on_nonempty(s.drop_first(), sep);
    }
}

/// A string without the separator is a single group.
pub proof fn lemma_split_on_no_sep(s: Seq<char>, sep: char)
    requires
        forall|i: int| 0 <= i < s.len() ==> s[i] != sep,
    ensures
        split_on(s, sep) == seq![s],
    decreases s.len(),
{
    if s.len() == 0 {
        assert(split_on(s, sep) == seq![Seq::<char>::empty()]);
        assert(Seq::<char>::empty() =~= s);
        assert(split_on(s, sep) =~= seq![s]);
    } else {
        assert(s[0] != sep);
        lemma_split_on_no_sep(s.drop_first(), sep);
        let rest = split_on(s.drop_first(), sep);
        assert(rest == seq![s.drop_first()]);
        assert(rest[0] == s.drop_first());
        assert(seq![s[0]] + rest[0] =~= s);
        assert(rest.drop_first() =~= Seq::<Seq<char>>::empty());
        assert(split_on(s, sep) =~= seq![s]);
    }
}

/// Splitting at the first separator: the part before it is the first group,
/// and the rest of the groups are those of the part after it.
pub proof fn lemma_split_on_first_sep(s: Seq<char>, sep: char, i: int)
    requires
        0 <= i < s.len(),
        s[i] == sep,
        forall|j: int| 0 <= j < i ==> s[j] != sep,
    ensures
        split_on(s, sep) == seq![s.subrange(0, i)] + split_on(
            s.subrange(i + 1, s.len() as int),
            sep,
        ),
    decreases i,
{
    if i == 0 {
        assert(s[0] == sep);
        assert(s.subrange(0, 0) =~= Seq::<char>::empty());
        assert(s.drop_first() =~= s.subrange(1, s.len() as int));
        assert(split_on(s, sep) =~= seq![s.subrange(0, 0)] + split_on(
            s.subrange(1, s.len() as int),
            sep,
        ));
    } else {
        assert(s[0] != sep);
        let t = s.drop_first();
        assert(t[i - 1] == sep);
        assert(forall|j: int| 0 <= j < i - 1 ==> t[j] != sep);
        lemma_split_on_first_sep(t, sep, i - 1);
        let rest = split_on(t, sep);
        assert(rest == seq![t.subrange(0, i - 1)] + split_on(t.subrange(i - 1 + 1, t.len() as int), sep));
        lemma_split_on_nonempty(t.subrange(i, t.len() as int), sep);
        assert(rest[0] == t.subrange(0, i - 1));
        assert(seq![s[0]] + t.subrange(0, i - 1) =~= s.subrange(0, i));
        assert(rest.drop_first() =~= split_on(t.subrange(i, t.len() as int), sep));
        assert(t.subrange(i, t.len() as int) =~= s.subrange(i + 1, s.len() as int));
        assert(split_on(s, sep) =~= seq![s.subrange(0, i)] + split_on(
            s.subrange(i + 1, s.len() as int),
            sep,
        ));
    }
}

/// A group that hex decoding accepts: an even number of hex digits.
pub open spec fn group_decodable(g: Seq<char>) -> bool {
    g.len() % 2 == 0 && (forall|i: int| 0 <= i < g.len() ==> is_hex_digit(g[i]))
}

/// The bytes a group decodes to: one byte for each pair of hex digits.
pub open spec fn group_bytes(g: Seq<char>) -> Seq<u8> {
    Seq::new(
        (g.len() / 2) as nat,
        |i: int| (16 * hex_digit_val(g[2 * i]) + hex_digit_val(g[2 * i + 1])) as u8,
    )
}

/// Every group of the sequence is decodable.
pub open spec fn groups_decodable(gs: Seq<Seq<char>>) -> bool {
    forall|i: int| 0 <= i < gs.len() ==> group_decodable(gs[i])
}

/// The concatenation of the bytes of each group, in order.
pub open spec fn groups_bytes(gs: Seq<Seq<char>>) -> Seq<u8>
    decreases gs.len(),
{
    if gs.len() == 0 {
        Seq::<u8>::empty()
    } else {
        group_bytes(gs[0]) + groups_bytes(gs.drop_first())
    }
}

/// Appending one more group appends its bytes.
pub proof fn lemma_groups_bytes_push(gs: Seq<Seq<char>>, g: Seq<char>)
    ensures
        groups_bytes(gs.push(g)) == groups_bytes(gs) + group_bytes(g),
    decreases gs.len(),
{
    if gs.len() == 0 {
        assert(gs.push(g)[0] == g);
        assert(gs.push(g).drop_first() =~= gs);
        assert(groups_bytes(gs) == Seq::<u8>::empty());
        assert(groups_bytes(gs.push(g)) == group_bytes(g) + groups_bytes(gs));
        assert(group_bytes(g) + Seq::<u8>::empty() =~= Seq::<u8>::empty() + group_bytes(g));
    } else {
        assert(gs.push(g)[0] == gs[0]);
        assert(gs.push(g).drop_first() =~= gs.drop_first().push(g));
        lemma_groups_bytes_push(gs.drop_first(), g);
        assert(groups_bytes(gs.push(g)) == group_bytes(gs[0]) + groups_bytes(
            gs.drop_first().push(g),
        ));
        assert(groups_bytes(gs) == group_bytes(gs[0]) + groups_bytes(gs.drop_first()));
        assert(group_bytes(gs[0]) + (groups_bytes(gs.drop_first()) + group_bytes(g)) =~= (
        group_bytes(gs[0]) + groups_bytes(gs.drop_first())) + group_bytes(g));
    }
}

/// The colon-separated groups of a hardware-address string.
pub open spec fn mac_groups(s: Seq<char>) -> Seq<Seq<char>> {
    split_on(s, ':')
}

/// Every colon-separated group of `s` hex-decodes.
pub open spec fn mac_decodable(s: Seq<char>) -> bool {
    groups_decodable(mac_groups(s))
}

/// The bytes of the decoded hardware address: the groups' bytes concatenated.
pub open spec fn mac_bytes(s: Seq<char>) -> Seq<u8> {
    groups_bytes(mac_groups(s))
}

/// Every colon group of `s` hex-decodes and exactly 6 bytes come out — the
/// well-formedness that valid syntax guarantees of the decoded bytes.
pub open spec fn mac_decodes(s: Seq<char>) -> bool {
    mac_decodable(s) && mac_bytes(s).len() == 6
}

/// A group of exactly two hex digits.
pub open spec fn is_octet_group(g: Seq<char>) -> bool {
    g.len() == 2 && is_hex_digit(g[0]) && is_hex_digit(g[1])
}

/// The byte value of a two-digit group.
pub open spec fn octet_val(g: Seq<char>) -> u8 {
    (16 * hex_digit_val(g[0]) + hex_digit_val(g[1])) as u8
}

/// Valid hardware-address syntax: six colon-separated groups of exactly two
/// hex digits.
pub open spec fn is_mac_syntax(s: Seq<char>) -> bool {
    mac_groups(s).len() == 6 && (forall|i: int|
        0 <= i < 6 ==> is_octet_group(mac_groups(s)[i]))
}

/// A decimal group of an IPv4 address: one to three decimal digits.
pub open spec fn is_ipv4_group(g: Seq<char>) -> bool {
    1 <= g.len() <= 3 && (forall|i: int| 0 <= i < g.len() ==> is_dec_digit(g[i]))
}

/// Valid IPv4 syntax at this layer: four dot-separated decimal groups.
/// No range check is made here; out-of-range octets are rejected downstream.
pub open spec fn is_ipv4_syntax(s: Seq<char>) -> bool {
    split_on(s, '.').len() == 4 && (forall|i: int|
        0 <= i < 4 ==> is_ipv4_group(split_on(s, '.')[i]))
}

/// Whether `c` is a hex digit.
fn char_is_hex_digit(c: char) -> (b: bool)
    ensures
        b == is_hex_digit(c),
{
    let u: u32 = c as u32;
    (('0' as u32) <= u && u <= ('9' as u32)) || (('a' as u32) <= u && u <= ('f' as u32)) || ((
    'A' as u32) <= u && u <= ('F' as u32))
}

/// Whether `c` is a decimal digit.
fn char_is_dec_digit(c: char) -> (b: bool)
    ensures
        b == is_dec_digit(c),
{
    let u: u32 = c as u32;
    ('0' as u32) <= u && u <= ('9' as u32)
}

/// Split `s` at every occurrence of `sep`, as `str::split` yields the parts.
pub fn split_sep(s: &str, sep: char) -> (r: Vec<String>)
    ensures
        r@.map_values(|g: String| g@) == split_on(s@, sep),
{
    let mut groups: Vec<String> = Vec::new();
    let mut rest: &str = s;
    loop
        invariant_except_break
            split_on(s@, sep) == groups@.map_values(|g: String| g@) + split_on(rest@, sep),
        ensures
            split_on(s@, sep) == groups@.map_values(|g: String| g@),
        decreases rest@.len(),
    {
        let n = rest.unicode_len();
        let mut j: usize = 0;
        while j < n && rest.get_char(j) != sep
            invariant
                n == rest@.len(),
                0 <= j <= n,
                forall|k: int| 0 <= k < j ==> rest@[k] != sep,
            decreases n - j,
        {
            j = j + 1;
        }
        if j == n {
            proof {
                lemma_split_on_no_sep(rest@, sep);
            }
            let ghost old_mapped = groups@.map_values(|g: String| g@);
            groups.push(String::from_str(rest));
            proof {
                assert(groups@.map_values(|g: String| g@) =~= old_mapped.push(rest@));
                assert(old_mapped + seq![rest@] =~= old_mapped.push(rest@));
            }
            break ;
        } else {
            let head = rest.substring_char(0, j);
            proof {
                lemma_split_on_first_sep(rest@, sep, j as int);
            }
            let ghost old_mapped = groups@.map_values(|g: String| g@);
            let ghost old_rest = rest@;
            groups.push(String::from_str(head));
            rest = rest.substring_char(j + 1, n);
            proof {
                assert(groups@.map_values(|g: String| g@) =~= old_mapped.push(head@));
                assert(old_mapped.push(head@) =~= old_mapped + seq![head@]);
                assert((old_mapped + seq![head@]) + split_on(rest@, sep) =~= old_mapped + (seq![
                    head@,
                ] + split_on(rest@, sep)));
                assert(seq![head@] + split_on(rest@, sep) =~= seq![old_rest.subrange(0, j as int)]
                    + split_on(old_rest.subrange(j + 1, old_rest.len() as int), sep));
            }
        }
    }
    groups
}

/// Relies on `hex::decode`: an even-length string of hex digits (`0-9`,
/// `a-f`, `A-F`) decodes to its byte values, one byte per digit pair; an odd
/// length or any other character is an error.
#[verifier::external_body]
fn decode_hex_group(group: &String) -> (r: Option<Vec<u8>>)
    ensures
        r is Some <==> group_decodable(group@),
        r matches Some(b) ==> b@ == group_bytes(group@),
{
    hex::decode(group.as_str()).ok()
}

/// Decode a hardware-address string.  Succeeds if and only if the string is
/// six colon-separated groups of exactly two hex digits — any other group
/// count, or any character that is not a hex digit, is `InvalidMacFormat` —
/// and then yields exactly 6 bytes, the numeric value of each group.
pub fn convert_mac(mac: &String) -> (r: Result<Vec<u8>, WakeUpError>)
    ensures
        r is Ok <==> is_mac_syntax(mac@),
        r matches Ok(bytes) ==> bytes@ == mac_bytes(mac@) && bytes@.len() == 6,
        r matches Err(e) ==> e == WakeUpError::InvalidMacFormat,
{
    if !validate_hardware_address_syntax(mac.as_str()) {
        return Result::Err(WakeUpError::InvalidMacFormat);
    }
    proof {
        lemma_valid_syntax_decodes(mac@);
    }
    let groups = split_sep(mac.as_str(), ':');
    let ghost gs = mac_groups(mac@);
    let mut bytes: Vec<u8> = Vec::new();
    let mut i: usize = 0;
    while i < groups.len()
        invariant
            is_mac_syntax(mac@),
            gs == mac_groups(mac@),
            gs == groups@.map_values(|g: String| g@),
            0 <= i <= groups@.len(),
            bytes@ == groups_bytes(gs.take(i as int)),
        decreases groups@.len() - i,
    {
        match decode_hex_group(&groups[i]) {
            Option::Some(mut b) => {
                proof {
                    assert(gs.take(i + 1) =~= gs.take(i as int).push(gs[i as int]));
                    lemma_groups_bytes_push(gs.take(i as int), gs[i as int]);
                }
                bytes.append(&mut b);
            },
            Option::None => {
                proof {
                    assert(gs.len() == groups@.len());
                    assert(gs[i as int] == groups@[i as int]@);
                    assert(is_octet_group(gs[i as int]));
                    lemma_octet_group_bytes(gs[i as int]);
                    assert(false);
                }
                return Result::Err(WakeUpError::InvalidMacFormat);
            },
        }
        i = i + 1;
    }
    proof {
        assert(gs.take(groups@.len() as int) =~= gs);
    }
    if bytes.len() == 6 {
        Result::Ok(bytes)
    } else {
        Result::Err(WakeUpError::InvalidMacFormat)
    }
}

/// Check hardware-address syntax: six colon-separated groups of exactly two
/// hex digits, case-insensitive.
pub fn validate_hardware_address_syntax(text: &str) -> (b: bool)
    ensures
        b == is_mac_syntax(text@),
{
    let groups = split_sep(text, ':');
    let ghost gs = mac_groups(text@);
    proof {
        assert(gs.len() == groups@.len());
    }
    if groups.len() != 6 {
        return false;
    }
    let mut i: usize = 0;
    while i < 6
        invariant
            gs == mac_groups(text@),
            gs == groups@.map_values(|g: String| g@),
            groups@.len() == 6,
            0 <= i <= 6,
            forall|k: int| 0 <= k < i ==> is_octet_group(gs[k]),
        decreases 6 - i,
    {
        let g: &String = &groups[i];
        proof {
            assert(gs[i as int] == groups@[i as int]@);
        }
        if g.as_str().unicode_len() != 2 {
            proof {
                assert(!is_octet_group(gs[i as int]));
            }
            return false;
        }
        let c0 = g.as_str().get_char(0);
        let c1 = g.as_str().get_char(1);
        if !char_is_hex_digit(c0) || !char_is_hex_digit(c1) {
            proof {
                assert(!is_octet_group(gs[i as int]));
            }
            return false;
        }
        i = i + 1;
    }
    true
}

/// Check IPv4 syntax: four dot-separated groups of one to three decimal
/// digits.  Octet ranges are not checked at this layer.
pub fn validate_ipv4_syntax(text: &str) -> (b: bool)
    ensures
        b == is_ipv4_syntax(text@),
{
    let groups = split_sep(text, '.');
    let ghost gs = split_on(text@, '.');
    proof {
        assert(gs.len() == groups@.len());
    }
    if groups.len() != 4 {
        return false;
    }
    let mut i: usize = 0;
    while i < 4
        invariant
            gs == split_on(text@, '.'),
            gs == groups@.map_values(|g: String| g@),
            groups@.len() == 4,
            0 <= i <= 4,
            forall|k: int| 0 <= k < i ==> is_ipv4_group(gs[k]),
        decreases 4 - i,
    {
        let g: &String = &groups[i];
        proof {
            assert(gs[i as int] == groups@[i as int]@);
        }
        let gl = g.as_str().unicode_len();
        if gl < 1 || gl > 3 {
            proof {
                assert(!is_ipv4_group(gs[i as int]));
            }
            return false;
        }
        let mut j: usize = 0;
        while j < gl
            invariant
                gs == split_on(text@, '.'),
                gs == groups@.map_values(|g2: String| g2@),
                groups@.len() == 4,
                0 <= i < 4,
                gl == gs[i as int].len(),
                1 <= gl <= 3,
                0 <= j <= gl,
                forall|k: int| 0 <= k < j ==> is_dec_digit(gs[i as int][k]),
            decreases gl - j,
        {
            if !char_is_dec_digit(groups[i].as_str().get_char(j)) {
                proof {
                    assert(gs[i as int] == groups@[i as int]@);
                    assert(!is_ipv4_group(gs[i as int]));
                }
                return false;
            }
            j = j + 1;
        }
        i = i + 1;
    }
    true
}

/// A group of two hex digits decodes to the single byte of its value.
pub proof fn lemma_octet_group_bytes(g: Seq<char>)
    requires
        is_octet_group(g),
    ensures
        group_decodable(g),
        group_bytes(g).len() == 1,
        group_bytes(g)[0] == octet_val(g),
{
    assert forall|i: int| 0 <= i < g.len() implies is_hex_digit(g[i]) by {
        assert(i == 0 || i == 1);
    }
}

/// A sequence of two-digit groups decodes to one byte per group, each byte
/// the numeric value of its group.
pub proof fn lemma_octets_bytes(gs: Seq<Seq<char>>)
    requires
        forall|i: int| 0 <= i < gs.len() ==> is_octet_group(gs[i]),
    ensures
        groups_decodable(gs),
        groups_bytes(gs).len() == gs.len(),
        forall|i: int| 0 <= i < gs.len() ==> groups_bytes(gs)[i] == octet_val(gs[i]),
    decreases gs.len(),
{
    if gs.len() == 0 {
    } else {
        lemma_octet_group_bytes(gs[0]);
        assert(forall|i: int| 0 <= i < gs.drop_first().len() ==> is_octet_group(
            gs.drop_first()[i],
        )) by {
            assert(forall|i: int|
                0 <= i < gs.drop_first().len() ==> gs.drop_first()[i] == gs[i + 1]);
        }
        lemma_octets_bytes(gs.drop_first());
        assert(groups_bytes(gs) == group_bytes(gs[0]) + groups_bytes(gs.drop_first()));
        assert forall|i: int| 0 <= i < gs.len() implies groups_bytes(gs)[i] == octet_val(
            gs[i],
        ) by {
            if i == 0 {
                assert(groups_bytes(gs)[0] == group_bytes(gs[0])[0]);
            } else {
                assert(groups_bytes(gs)[i] == groups_bytes(gs.drop_first())[i - 1]);
                assert(gs.drop_first()[i - 1] == gs[i]);
            }
        }
    }
}

/// Every string of valid hardware-address syntax decodes, to exactly 6
/// bytes, the byte at each position being the numeric value of the group at
/// that position.
pub proof fn lemma_valid_syntax_decodes(s: Seq<char>)
    requires
        is_mac_syntax(s),
    ensures
        mac_decodes(s),
        mac_bytes(s).len() == 6,
        forall|i: int| 0 <= i < 6 ==> mac_bytes(s)[i] == octet_val(mac_groups(s)[i]),
{
    lemma_octets_bytes(mac_groups(s));
}

/// A character that is not a hex digit, anywhere in any group, makes
/// decoding reject the string: it fails `is_mac_syntax`, so `convert_mac`
/// returns `InvalidMacFormat`.
pub proof fn lemma_decode_rejects_bad_char(s: Seq<char>, i: int, j: int)
    requires
        0 <= i < mac_groups(s).len(),
        0 <= j < mac_groups(s)[i].len(),
        !is_hex_digit(mac_groups(s)[i][j]),
    ensures
        !is_mac_syntax(s),
{
    if mac_groups(s).len() == 6 {
        assert(!is_octet_group(mac_groups(s)[i])) by {
            if is_octet_group(mac_groups(s)[i]) {
                assert(j == 0 || j == 1);
            }
        }
    }
}

/// A group count other than six makes decoding reject the string: it fails
/// `is_mac_syntax`, so `convert_mac` returns `InvalidMacFormat`, even when
/// the groups' bytes would total six.
pub proof fn lemma_decode_rejects_group_count(s: Seq<char>)
    requires
        mac_groups(s).len() != 6,
    ensures
        !is_mac_syntax(s),
{
}

} // verus!

//! The connection to the robot's network tables server.

use vstd::prelude::*;

use crate::decimal::{
    decimal, decimal_text, digit_char, is_digit, is_numeral, law_decimal_is_injective,
    law_decimal_is_read_back, law_numeral_is_decimal, lemma_decimal_digits, value_of,
};

verus! {

/// The topic of the robot's position.
pub const TRANSLATION_TOPIC: &'static str = "/chalkydri/robot_pose/translation";

/// The topic of the robot's orientation.
pub const ROTATION_TOPIC: &'static str = "/chalkydri/robot_pose/rotation";

/// The topic of the time at which the robot's pose was measured.
pub const TIMESTAMP_TOPIC: &'static str = "/chalkydri/robot_pose/timestamp";

/// How long to wait before connecting again, in milliseconds.
pub const RETRY_DELAY_MS: u64 = 5;

/// The dot-decimal notation of an IPv4 address.
pub open spec fn dotted(octets: Seq<u8>) -> Seq<char> {
    decimal(octets[0] as nat) + seq!['.'] + decimal(octets[1] as nat) + seq!['.'] + decimal(
        octets[2] as nat,
    ) + seq!['.'] + decimal(octets[3] as nat)
}

/// Where the run of digits that begins at `start` ends.
spec fn run_ends(s: Seq<char>, start: int, end: int) -> bool {
    &&& 0 <= start <= end <= s.len()
    &&& forall|i: int| start <= i < end ==> is_digit(#[trigger] s[i])
    &&& end < s.len() ==> !is_digit(s[end])
}

/// The run of digits from a place on ends at one place.
proof fn lemma_run_ends_once(s: Seq<char>, start: int, end: int, other: int)
    requires
        run_ends(s, start, end),
        run_ends(s, start, other),
    ensures
        end == other,
{
    if end < other {
        assert(is_digit(s[end]));
    } else if other < end {
        assert(is_digit(s[other]));
    }
}

/// The decimal text of an octet, digit by digit.
proof fn lemma_decimal_octet(v: u8)
    ensures
        v < 10 ==> decimal(v as nat) =~= seq![digit_char(v as nat)],
        10 <= v < 100 ==> decimal(v as nat) =~= seq![
            digit_char((v / 10) as nat),
            digit_char((v % 10) as nat),
        ],
        100 <= v ==> decimal(v as nat) =~= seq![
            digit_char((v / 100) as nat),
            digit_char((v / 10 % 10) as nat),
            digit_char((v % 10) as nat),
        ],
{
    reveal_with_fuel(decimal, 3);
}

/// Whether the character at a place is a digit.
fn digit_at(s: &str, i: usize) -> (digit: bool)
    requires
        i < s@.len(),
    ensures
        digit == is_digit(s@[i as int]),
{
    let c = s.get_char(i);
    '0' <= c && c <= '9'
}

/// The value of the digit at a place.
fn digit_value(s: &str, i: usize) -> (value: u32)
    requires
        i < s@.len(),
        is_digit(s@[i as int]),
    ensures
        value < 10,
        digit_char(value as nat) == s@[i as int],
{
    s.get_char(i) as u32 - '0' as u32
}

/// Read the octet that the run of digits from `start` on writes, and where that run ends.
fn read_octet(s: &str, start: usize) -> (read: Option<(u8, usize)>)
    requires
        start <= s@.len(),
    ensures
        read matches Some((octet, end)) ==> run_ends(s@, start as int, end as int) && s@.subrange(
            start as int,
            end as int,
        ) == decimal(octet as nat),
        read is None ==> forall|octet: u8, end: int|
            #![trigger decimal(octet as nat), run_ends(s@, start as int, end)]
            run_ends(s@, start as int, end) ==> s@.subrange(start as int, end) != decimal(
                octet as nat,
            ),
{
    let len: usize = s.unicode_len();
    let mut end: usize = start;
    while end < len && digit_at(s, end)
        invariant
            len == s@.len(),
            start <= end <= len,
            forall|i: int| start <= i < end ==> is_digit(#[trigger] s@[i]),
        decreases len - end,
    {
        end += 1;
    }
    let ghost run = s@.subrange(start as int, end as int);
    let digits: usize = end - start;
    let first: u32 = if digits >= 1 {
        digit_value(s, start)
    } else {
        0
    };
    let second: u32 = if digits >= 2 {
        digit_value(s, start + 1)
    } else {
        0
    };
    let third: u32 = if digits >= 3 {
        digit_value(s, start + 2)
    } else {
        0
    };
    let value: u32 = if digits == 1 {
        first
    } else if digits == 2 {
        10 * first + second
    } else if digits == 3 {
        100 * first + 10 * second + third
    } else {
        256
    };
    let leading_zero = digits >= 2 && first == 0;
    proof {
        assert forall|octet: u8, other: int|
            #![trigger decimal(octet as nat), run_ends(s@, start as int, other)]
            run_ends(s@, start as int, other) && s@.subrange(start as int, other) == decimal(
                octet as nat,
            ) implies value == octet && !leading_zero by {
            lemma_run_ends_once(s@, start as int, end as int, other);
            lemma_decimal_octet(octet);
            assert(run == decimal(octet as nat));
            assert(run.len() == digits);
            assert(digits >= 1 ==> run[0] == digit_char(first as nat));
            assert(digits >= 2 ==> run[1] == digit_char(second as nat));
            assert(digits >= 3 ==> run[2] == digit_char(third as nat));
            if octet < 10 {
                assert(first == octet);
            } else if octet < 100 {
                assert(first == octet / 10 && second == octet % 10);
            } else {
                assert(first == octet / 100 && second == octet / 10 % 10 && third == octet % 10);
            }
        }
        if value <= 255 && !leading_zero {
            lemma_decimal_octet(value as u8);
            assert(run =~= decimal(value as nat));
        }
    }
    if value <= 255 && !leading_zero {
        Some((value as u8, end))
    } else {
        None
    }
}

/// The part of an address from `start` up to `next` writes the octet `v`: its digits and, but for
/// the last part, the dot that follows them.
spec fn part(s: Seq<char>, start: int, last: bool, v: u8, next: int) -> bool {
    let end = if last {
        next
    } else {
        next - 1
    };
    &&& run_ends(s, start, end)
    &&& s.subrange(start, end) == decimal(v as nat)
    &&& if last {
        end == s.len()
    } else {
        end < s.len() && s[end] == '.'
    }
}

/// Read one part of an address: its octet, and where the next part begins.
fn read_part(s: &str, start: usize, last: bool) -> (read: Option<(u8, usize)>)
    requires
        start <= s@.len(),
    ensures
        read matches Some((octet, next)) ==> next <= s@.len() && part(
            s@,
            start as int,
            last,
            octet,
            next as int,
        ),
        read is None ==> forall|octet: u8, next: int|
            !#[trigger] part(s@, start as int, last, octet, next),
{
    let len: usize = s.unicode_len();
    let read = read_octet(s, start);
    proof {
        assert forall|octet: u8, next: int| #[trigger]
            part(s@, start as int, last, octet, next) implies (read matches Some((v, end)) && v
            == octet && end == (if last {
            next
        } else {
            next - 1
        })) by {
            let end = if last {
                next
            } else {
                next - 1
            };
            assert(run_ends(s@, start as int, end));
            if let Some((v, e)) = read {
                lemma_run_ends_once(s@, start as int, end, e as int);
                law_decimal_is_injective(octet as nat, v as nat);
            }
        }
    }
    match read {
        Some((octet, end)) => {
            if last {
                if end == len {
                    return Some((octet, end));
                }
            } else if end < len {
                if s.get_char(end) == '.' {
                    return Some((octet, end + 1));
                }
            }
            None
        },
        None => None,
    }
}

/// The octet of a part and its end are determined by where it starts.
proof fn lemma_part_unique(s: Seq<char>, start: int, last: bool, v: u8, next: int, w: u8, other: int)
    requires
        part(s, start, last, v, next),
        part(s, start, last, w, other),
    ensures
        v == w,
        next == other,
{
    let end = if last {
        next
    } else {
        next - 1
    };
    let other_end = if last {
        other
    } else {
        other - 1
    };
    lemma_run_ends_once(s, start, end, other_end);
    law_decimal_is_injective(v as nat, w as nat);
}

/// Where the second, third and fourth part of a dotted address begin.
spec fn part_starts(octets: Seq<u8>) -> (int, int, int) {
    let second = decimal(octets[0] as nat).len() + 1;
    let third = second + decimal(octets[1] as nat).len() + 1;
    let fourth = third + decimal(octets[2] as nat).len() + 1;
    (second as int, third as int, fourth as int)
}

/// A dotted address consists of the parts of its octets.
proof fn lemma_dotted_parts(octets: Seq<u8>)
    requires
        octets.len() == 4,
    ensures
        ({
            let s = dotted(octets);
            let (second, third, fourth) = part_starts(octets);
            &&& part(s, 0, false, octets[0], second)
            &&& part(s, second, false, octets[1], third)
            &&& part(s, third, false, octets[2], fourth)
            &&& part(s, fourth, true, octets[3], s.len() as int)
        }),
{
    let s = dotted(octets);
    let (second, third, fourth) = part_starts(octets);
    lemma_decimal_digits(octets[0] as nat);
    lemma_decimal_digits(octets[1] as nat);
    lemma_decimal_digits(octets[2] as nat);
    lemma_decimal_digits(octets[3] as nat);
    let a = decimal(octets[0] as nat);
    let b = decimal(octets[1] as nat);
    let c = decimal(octets[2] as nat);
    let d = decimal(octets[3] as nat);
    assert(s.subrange(0, second - 1) =~= a);
    assert(s.subrange(second, third - 1) =~= b);
    assert(s.subrange(third, fourth - 1) =~= c);
    assert(s.subrange(fourth, s.len() as int) =~= d);
    assert(forall|i: int| 0 <= i < a.len() ==> s[i] == a[i]);
    assert(forall|i: int| second <= i < third - 1 ==> s[i] == b[i - second]);
    assert(forall|i: int| third <= i < fourth - 1 ==> s[i] == c[i - third]);
    assert(forall|i: int| fourth <= i < s.len() ==> s[i] == d[i - fourth]);
}

/// Parts that follow each other make up the dotted address of their octets.
proof fn lemma_parts_dotted(s: Seq<char>, octets: Seq<u8>, second: int, third: int, fourth: int)
    requires
        octets.len() == 4,
        part(s, 0, false, octets[0], second),
        part(s, second, false, octets[1], third),
        part(s, third, false, octets[2], fourth),
        part(s, fourth, true, octets[3], s.len() as int),
    ensures
        s == dotted(octets),
{
    let a = s.subrange(0, second - 1);
    let b = s.subrange(second, third - 1);
    let c = s.subrange(third, fourth - 1);
    let d = s.subrange(fourth, s.len() as int);
    assert(s =~= a + seq!['.'] + b + seq!['.'] + c + seq!['.'] + d);
}

/// Parse an IPv4 address in dot-decimal notation.
pub fn parse_ipv4(s: &str) -> (parsed: Option<[u8; 4]>)
    ensures
        parsed matches Some(octets) ==> s@ == dotted(octets@),
        parsed is None ==> forall|octets: Seq<u8>|
            octets.len() == 4 ==> s@ != #[trigger] dotted(octets),
{
    let first = read_part(s, 0, false);
    let second = match first {
        Some((_, start)) => read_part(s, start, false),
        None => None,
    };
    let third = match second {
        Some((_, start)) => read_part(s, start, false),
        None => None,
    };
    let fourth = match third {
        Some((_, start)) => read_part(s, start, true),
        None => None,
    };
    proof {
        assert forall|octets: Seq<u8>|
            octets.len() == 4 && s@ == #[trigger] dotted(octets) implies fourth is Some by {
            lemma_dotted_parts(octets);
            let (b, c, d) = part_starts(octets);
            assert(part(s@, 0, false, octets[0], b));
            if let Some((v, next)) = first {
                lemma_part_unique(s@, 0, false, v, next as int, octets[0], b);
                assert(part(s@, next as int, false, octets[1], c));
                if let Some((v2, next2)) = second {
                    lemma_part_unique(s@, next as int, false, v2, next2 as int, octets[1], c);
                    assert(part(s@, next2 as int, false, octets[2], d));
                    if let Some((v3, next3)) = third {
                        lemma_part_unique(s@, next2 as int, false, v3, next3 as int, octets[2], d);
                        assert(part(s@, next3 as int, true, octets[3], s@.len() as int));
                    }
                }
            }
        }
    }
    match (first, second, third, fourth) {
        (Some((a, b_start)), Some((b, c_start)), Some((c, d_start)), Some((d, _))) => {
            let octets: [u8; 4] = [a, b, c, d];
            proof {
                lemma_parts_dotted(
                    s@,
                    octets@,
                    b_start as int,
                    c_start as int,
                    d_start as int,
                );
            }
            Some(octets)
        },
        _ => None,
    }
}

/// Different addresses have different notations, so an address is read back as it was written.
pub proof fn law_dotted_is_injective(a: Seq<u8>, b: Seq<u8>)
    requires
        a.len() == 4,
        b.len() == 4,
        dotted(a) == dotted(b),
    ensures
        a == b,
{
    lemma_dotted_parts(a);
    lemma_dotted_parts(b);
    let s = dotted(a);
    let (a2, a3, a4) = part_starts(a);
    let (b2, b3, b4) = part_starts(b);
    lemma_part_unique(s, 0, false, a[0], a2, b[0], b2);
    lemma_part_unique(s, a2, false, a[1], a3, b[1], b3);
    lemma_part_unique(s, a3, false, a[2], a4, b[2], b4);
    lemma_part_unique(s, a4, true, a[3], s.len() as int, b[3], s.len() as int);
    assert(a =~= b);
}

/// Four numerals up to 255 with dots between them are the notation of the address that has their
/// numbers as its octets, in the same order.
pub proof fn law_address_is_written_in_order(
    a: Seq<char>,
    b: Seq<char>,
    c: Seq<char>,
    d: Seq<char>,
    octets: Seq<u8>,
)
    requires
        octets.len() == 4,
        is_numeral(a) && value_of(a) == octets[0],
        is_numeral(b) && value_of(b) == octets[1],
        is_numeral(c) && value_of(c) == octets[2],
        is_numeral(d) && value_of(d) == octets[3],
    ensures
        dotted(octets) == a + seq!['.'] + b + seq!['.'] + c + seq!['.'] + d,
{
    law_numeral_is_decimal(a);
    law_numeral_is_decimal(b);
    law_numeral_is_decimal(c);
    law_numeral_is_decimal(d);
}

/// Every notation of an address consists of four numerals with dots between them, which stand for
/// its octets, in the same order.
pub proof fn law_address_has_four_numerals(octets: Seq<u8>) -> (numerals: Seq<Seq<char>>)
    requires
        octets.len() == 4,
    ensures
        numerals.len() == 4,
        forall|i: int|
            0 <= i < 4 ==> is_numeral(#[trigger] numerals[i]) && value_of(numerals[i]) == octets[i],
        dotted(octets) == numerals[0] + seq!['.'] + numerals[1] + seq!['.'] + numerals[2] + seq![
            '.',
        ] + numerals[3],
{
    law_decimal_is_read_back(octets[0] as nat);
    law_decimal_is_read_back(octets[1] as nat);
    law_decimal_is_read_back(octets[2] as nat);
    law_decimal_is_read_back(octets[3] as nat);
    seq![
        decimal(octets[0] as nat),
        decimal(octets[1] as nat),
        decimal(octets[2] as nat),
        decimal(octets[3] as nat),
    ]
}

/// What [`parse_ipv4`] makes of four numerals with dots between them: the address with their
/// numbers as its octets if none is above 255, and otherwise nothing.
pub proof fn law_address_is_parsed(
    a: Seq<char>,
    b: Seq<char>,
    c: Seq<char>,
    d: Seq<char>,
    text: Seq<char>,
    parsed: Option<[u8; 4]>,
)
    requires
        is_numeral(a) && is_numeral(b) && is_numeral(c) && is_numeral(d),
        text == a + seq!['.'] + b + seq!['.'] + c + seq!['.'] + d,
        parsed matches Some(octets) ==> text == dotted(octets@),
        parsed is None ==> forall|octets: Seq<u8>|
            octets.len() == 4 ==> text != #[trigger] dotted(octets),
    ensures
        parsed is Some <==> value_of(a) <= 255 && value_of(b) <= 255 && value_of(c) <= 255
            && value_of(d) <= 255,
        parsed matches Some(octets) ==> {
            &&& octets@[0] == value_of(a)
            &&& octets@[1] == value_of(b)
            &&& octets@[2] == value_of(c)
            &&& octets@[3] == value_of(d)
        },
{
    law_numeral_is_decimal(a);
    law_numeral_is_decimal(b);
    law_numeral_is_decimal(c);
    law_numeral_is_decimal(d);
    if value_of(a) <= 255 && value_of(b) <= 255 && value_of(c) <= 255 && value_of(d) <= 255 {
        let octets = seq![
            value_of(a) as u8,
            value_of(b) as u8,
            value_of(c) as u8,
            value_of(d) as u8,
        ];
        law_address_is_written_in_order(a, b, c, d, octets);
        assert(text == dotted(octets));
        if let Some(read) = parsed {
            law_dotted_is_injective(octets, read@);
        }
    } else if let Some(read) = parsed {
        let n = law_address_has_four_numerals(read@);
        lemma_numerals_match(a, b, c, d, n[0], n[1], n[2], n[3]);
    }
}

/// A text starts with one numeral before its first dot.
proof fn lemma_numeral_before_dot(a: Seq<char>, rest: Seq<char>, x: Seq<char>, other: Seq<char>)
    requires
        is_numeral(a),
        is_numeral(x),
        a + seq!['.'] + rest == x + seq!['.'] + other,
    ensures
        a == x,
        rest == other,
{
    let s = a + seq!['.'] + rest;
    let t = x + seq!['.'] + other;
    assert(s[a.len() as int] == '.');
    assert(t[x.len() as int] == '.');
    if a.len() < x.len() {
        assert(t[a.len() as int] == x[a.len() as int]);
    } else if x.len() < a.len() {
        assert(s[x.len() as int] == a[x.len() as int]);
    }
    assert(a =~= s.take(a.len() as int));
    assert(x =~= t.take(x.len() as int));
    assert(rest =~= s.skip(a.len() as int + 1));
    assert(other =~= t.skip(x.len() as int + 1));
}

/// Two ways to split a text into four numerals with dots between them are the same.
proof fn lemma_numerals_match(
    a: Seq<char>,
    b: Seq<char>,
    c: Seq<char>,
    d: Seq<char>,
    x: Seq<char>,
    y: Seq<char>,
    z: Seq<char>,
    w: Seq<char>,
)
    requires
        is_numeral(a) && is_numeral(b) && is_numeral(c) && is_numeral(d),
        is_numeral(x) && is_numeral(y) && is_numeral(z) && is_numeral(w),
        a + seq!['.'] + b + seq!['.'] + c + seq!['.'] + d == x + seq!['.'] + y + seq!['.'] + z
            + seq!['.'] + w,
    ensures
        a == x && b == y && c == z && d == w,
{
    let dot = seq!['.'];
    let r1 = b + dot + c + dot + d;
    let q1 = y + dot + z + dot + w;
    assert(a + dot + r1 =~= a + dot + b + dot + c + dot + d);
    assert(x + dot + q1 =~= x + dot + y + dot + z + dot + w);
    lemma_numeral_before_dot(a, r1, x, q1);
    let r2 = c + dot + d;
    let q2 = z + dot + w;
    assert(b + dot + r2 =~= r1);
    assert(y + dot + q2 =~= q1);
    lemma_numeral_before_dot(b, r2, y, q2);
    lemma_numeral_before_dot(c, d, z, w);
}

/// Why there is no server to connect to.
#[derive(Clone, Copy, Debug, PartialEq, Eq, Structural)]
pub enum AddressError {
    /// The configured address is not an IPv4 address.
    BadAddress,
    /// The team number has no address.
    NoTeamAddress,
}

impl AddressError {
    /// What to tell the user.
    pub fn message(&self) -> (text: &'static str)
        ensures
            text@ == match *self {
                AddressError::BadAddress => "failed to parse ip address"@,
                AddressError::NoTeamAddress => "failed to generate team ip"@,
            },
    {
        match *self {
            AddressError::BadAddress => "failed to parse ip address",
            AddressError::NoTeamAddress => "failed to generate team ip",
        }
    }
}

/// The address of the robot of a team, 10.TE.AM.2 where TEAM is the team's number, if that number
/// has one.
pub open spec fn team_ip(team_number: u16) -> Option<Seq<u8>> {
    if team_number / 100 <= 255 {
        Some(seq![10u8, (team_number / 100) as u8, (team_number % 100) as u8, 2u8])
    } else {
        None
    }
}

/// The address of the robot of a team.
pub fn gen_team_ip(team_number: u16) -> (ip: Option<[u8; 4]>)
    ensures
        match ip {
            Some(octets) => team_ip(team_number) == Some(octets@),
            None => team_ip(team_number) is None,
        },
        ip is Some <==> team_number <= 25599,
        ip matches Some(octets) ==> {
            &&& octets@[0] == 10
            &&& 100 * octets@[1] + octets@[2] == team_number
            &&& octets@[2] < 100
            &&& octets@[3] == 2
        },
{
    if team_number / 100 <= 255 {
        let octets: [u8; 4] = [10, (team_number / 100) as u8, (team_number % 100) as u8, 2];
        assert(octets@ =~= team_ip(team_number)->0);
        Some(octets)
    } else {
        None
    }
}

/// The address of the robot of a team is 10.TE.AM.2: the last two digits of the team's number are
/// the third octet, the digits before them the second. The numbers up to 25599 have one.
pub proof fn law_team_address_spells_the_number(team_number: u16)
    ensures
        team_ip(team_number) is Some <==> team_number <= 25599,
        team_ip(team_number) matches Some(octets) ==> {
            &&& octets.len() == 4
            &&& octets[0] == 10
            &&& 100 * octets[1] + octets[2] == team_number
            &&& octets[2] < 100
            &&& octets[3] == 2
        },
{
}

/// No two teams share an address.
pub proof fn law_team_addresses_differ(a: u16, b: u16)
    requires
        team_ip(a) is Some,
        team_ip(a) == team_ip(b),
    ensures
        a == b,
{
    assert(team_ip(a)->0[1] == team_ip(b)->0[1]);
    assert(team_ip(a)->0[2] == team_ip(b)->0[2]);
    assert(a / 100 == b / 100 && a % 100 == b % 100);
}

/// The address of the server: the configured one if there is one, or else that of the team's
/// robot.
pub fn server_address(configured: &Option<String>, team_number: u16) -> (address: Result<
    [u8; 4],
    AddressError,
>)
    ensures
        configured matches Some(text) ==> match address {
            Ok(octets) => text@ == dotted(octets@),
            Err(error) => error == AddressError::BadAddress && forall|octets: Seq<u8>|
                octets.len() == 4 ==> text@ != #[trigger] dotted(octets),
        },
        configured is None ==> match address {
            Ok(octets) => team_ip(team_number) == Some(octets@),
            Err(error) => error == AddressError::NoTeamAddress && team_ip(team_number) is None,
        },
        configured is None ==> (address is Ok <==> team_number <= 25599),
        configured is None ==> (address matches Ok(octets) ==> {
            &&& octets@[0] == 10
            &&& 100 * octets@[1] + octets@[2] == team_number
            &&& octets@[2] < 100
            &&& octets@[3] == 2
        }),
{
    match configured {
        Some(text) => match parse_ipv4(text.as_str()) {
            Some(octets) => Ok(octets),
            None => Err(AddressError::BadAddress),
        },
        None => match gen_team_ip(team_number) {
            Some(octets) => Ok(octets),
            None => Err(AddressError::NoTeamAddress),
        },
    }
}

/// The name by which a device with the given number is known to the server.
pub open spec fn client_name_of(dev_id: u32) -> Seq<char> {
    "chalkydri"@ + decimal(dev_id as nat)
}

/// The name by which a device with the given number is known to the server.
pub fn client_name(dev_id: u32) -> (name: String)
    ensures
        name@ == client_name_of(dev_id),
        "chalkydri"@.is_prefix_of(name@),
        is_numeral(name@.skip("chalkydri"@.len() as int)),
        value_of(name@.skip("chalkydri"@.len() as int)) == dev_id,
{
    proof {
        law_client_name_ends_in_the_number(dev_id);
    }
    "chalkydri".to_owned().concat(decimal_text(dev_id).as_str())
}

/// The name of a device is the program's name followed by a numeral that stands for the device's
/// number.
pub proof fn law_client_name_ends_in_the_number(dev_id: u32)
    ensures
        "chalkydri"@.is_prefix_of(client_name_of(dev_id)),
        is_numeral(client_name_of(dev_id).skip("chalkydri"@.len() as int)),
        value_of(client_name_of(dev_id).skip("chalkydri"@.len() as int)) == dev_id,
{
    law_decimal_is_read_back(dev_id as nat);
    let prefix = "chalkydri"@;
    assert(client_name_of(dev_id).skip(prefix.len() as int) =~= decimal(dev_id as nat));
}

/// Devices with different numbers have different names.
pub proof fn law_client_names_differ(a: u32, b: u32)
    requires
        client_name_of(a) == client_name_of(b),
    ensures
        a == b,
{
    let prefix = "chalkydri"@;
    assert(client_name_of(a).skip(prefix.len() as int) =~= decimal(a as nat));
    assert(client_name_of(b).skip(prefix.len() as int) =~= decimal(b as nat));
    law_decimal_is_injective(a as nat, b as nat);
}

/// Calls `fastrand::u32` on the full range. Any number may come back.
#[verifier::external_body]
fn random_dev_id() -> (dev_id: u32)
{
    fastrand::u32(..)
}

/// The name for this run of the program: that of a device with a random number.
pub fn random_client_name() -> (name: String)
    ensures
        exists|dev_id: u32| name@ == #[trigger] client_name_of(dev_id),
        "chalkydri"@.is_prefix_of(name@),
        is_numeral(name@.skip("chalkydri"@.len() as int)),
        0 <= value_of(name@.skip("chalkydri"@.len() as int)) <= u32::MAX,
{
    client_name(random_dev_id())
}

/// What to do after a failure to connect.
#[derive(Clone, Copy, Debug, PartialEq, Eq, Structural)]
pub struct Retry {
    /// Whether to report the failure.
    pub report: bool,
    /// How long to wait before the next attempt, in milliseconds.
    pub delay_ms: u64,
}

/// Attempts to connect to the server, which go on until one succeeds.
#[derive(Clone, Copy, Debug, PartialEq, Eq, Structural)]
pub struct Connector {
    /// Whether an attempt failed before.
    pub retry: bool,
}

impl Connector {
    /// What to do when an attempt fails in this state.
    pub open spec fn on_failure(self) -> Retry {
        Retry { report: !self.retry, delay_ms: RETRY_DELAY_MS }
    }

    /// The state after a failure.
    pub open spec fn after_failure(self) -> Connector {
        Connector { retry: true }
    }

    /// No attempt was made yet.
    pub fn new() -> (connector: Self)
        ensures
            connector == (Connector { retry: false }),
    {
        Connector { retry: false }
    }

    /// An attempt failed: the first failure is reported, and every one is followed by another
    /// attempt.
    pub fn failed(&mut self) -> (next: Retry)
        ensures
            next == old(self).on_failure(),
            *final(self) == old(self).after_failure(),
            next.report <==> !old(self).retry,
            next.delay_ms == 5,
            final(self).retry,
    {
        let next = Retry { report: !self.retry, delay_ms: RETRY_DELAY_MS };
        self.retry = true;
        next
    }
}

/// How many of so many failures in a row are reported, from a given state on.
pub open spec fn reports(connector: Connector, failures: nat) -> nat
    decreases failures,
{
    if failures == 0 {
        0
    } else {
        (if connector.on_failure().report {
            1nat
        } else {
            0nat
        }) + reports(connector.after_failure(), (failures - 1) as nat)
    }
}

/// A failure is reported if none came before it; after any failure the next attempt comes five
/// milliseconds later, and the failure is remembered.
pub proof fn law_every_failure_is_followed_by_an_attempt(connector: Connector)
    ensures
        connector.on_failure().report <==> !connector.retry,
        connector.on_failure().delay_ms == 5,
        connector.after_failure().retry,
        !connector.after_failure().on_failure().report,
{
}

/// However often connecting fails, it is reported once.
pub proof fn law_failures_are_reported_once(failures: nat)
    requires
        failures > 0,
    ensures
        reports(Connector { retry: false }, failures) == 1,
{
    lemma_no_report_after_failure((failures - 1) as nat);
}

/// Once a failure was reported, no other one is.
proof fn lemma_no_report_after_failure(failures: nat)
    ensures
        reports(Connector { retry: true }, failures) == 0,
    decreases failures,
{
    if failures > 0 {
        lemma_no_report_after_failure((failures - 1) as nat);
    }
}

} // verus!

use rand::rngs::SmallRng;
use rand::{RngCore, SeedableRng};
use std::time::{SystemTime, UNIX_EPOCH};
use vstd::prelude::*;
use vstd::string::*;

verus! {

/// Seconds between the Unix epoch and the epoch that identifiers count from.
pub const SESSION_EPOCH_SECONDS: u64 = 1717340400;

/// Number of distinct values of the 48-bit timestamp part.
pub const TIMESTAMP_SPAN: u64 = 0x1_0000_0000_0000;

/// Number of distinct values of the 16-bit random part.
pub const RANDOM_SPAN: u64 = 0x1_0000;

/// The system clock reads earlier than the identifier epoch.
#[derive(Clone, Copy, Debug, PartialEq, Eq, Structural)]
pub struct ClockError {}

/// A 64-bit identifier: the high 48 bits count milliseconds since the
/// identifier epoch, the low 16 bits are random fill.
#[derive(Clone, Copy, Debug, PartialEq, Eq, Hash, Structural)]
pub struct SnowflakeId {
    value: u64,
}

/// The identifier whose timestamp part is `elapsed_millis` (reduced to 48
/// bits) and whose random part is `fill`.
pub open spec fn spec_compose(elapsed_millis: nat, fill: nat) -> nat {
    (elapsed_millis % (TIMESTAMP_SPAN as nat)) * (RANDOM_SPAN as nat) + fill % (RANDOM_SPAN as nat)
}

/// The two fill bytes read as one big-endian number.
pub open spec fn spec_fill(fill: [u8; 2]) -> nat {
    (fill[0] as nat) * 256 + (fill[1] as nat)
}

/// What `from_clock` returns for a clock reading and a random fill.
pub open spec fn spec_from_clock(unix_millis: Option<u128>, fill: [u8; 2]) -> Result<u64, ClockError> {
    match unix_millis {
        Some(now) if now >= SESSION_EPOCH_SECONDS as nat * 1000 => Ok(
            spec_compose((now - SESSION_EPOCH_SECONDS as nat * 1000) as nat, spec_fill(fill)) as u64,
        ),
        _ => Err(ClockError {  }),
    }
}

/// The character that stands for the decimal digit `d`.
pub open spec fn spec_digit_char(d: nat) -> char {
    if d == 0 {
        '0'
    } else if d == 1 {
        '1'
    } else if d == 2 {
        '2'
    } else if d == 3 {
        '3'
    } else if d == 4 {
        '4'
    } else if d == 5 {
        '5'
    } else if d == 6 {
        '6'
    } else if d == 7 {
        '7'
    } else if d == 8 {
        '8'
    } else {
        '9'
    }
}

/// The decimal digit that `c` stands for, if it is one.
pub open spec fn spec_digit_value(c: char) -> Option<nat> {
    if c == '0' {
        Some(0)
    } else if c == '1' {
        Some(1)
    } else if c == '2' {
        Some(2)
    } else if c == '3' {
        Some(3)
    } else if c == '4' {
        Some(4)
    } else if c == '5' {
        Some(5)
    } else if c == '6' {
        Some(6)
    } else if c == '7' {
        Some(7)
    } else if c == '8' {
        Some(8)
    } else if c == '9' {
        Some(9)
    } else {
        None
    }
}

/// The canonical decimal text of `n`: no sign, no leading zero but for zero
/// itself.
pub open spec fn spec_decimal(n: nat) -> Seq<char>
    decreases n,
{
    if n < 10 {
        seq![spec_digit_char(n)]
    } else {
        spec_decimal(n / 10).push(spec_digit_char(n % 10))
    }
}

/// Every character of `s` is a decimal digit.
pub open spec fn spec_all_digits(s: Seq<char>) -> bool {
    forall|i: int| 0 <= i < s.len() ==> (#[trigger] spec_digit_value(s[i])) is Some
}

/// The number that a string of decimal digits denotes.
pub open spec fn spec_digits_value(s: Seq<char>) -> nat
    decreases s.len(),
{
    if s.len() == 0 {
        0
    } else {
        10 * spec_digits_value(s.drop_last()) + spec_digit_value(s.last()).unwrap_or(0)
    }
}

/// The digits of a decimal text: what follows an optional leading `+`.
pub open spec fn spec_unsigned_part(s: Seq<char>) -> Seq<char> {
    if s.len() > 0 && s[0] == '+' {
        s.skip(1)
    } else {
        s
    }
}

/// The 64-bit number that a decimal text denotes: an optional `+`, then at
/// least one digit and nothing else, the whole not above `u64::MAX`.
pub open spec fn spec_parse_decimal(s: Seq<char>) -> Option<u64> {
    let digits = spec_unsigned_part(s);
    if digits.len() > 0 && spec_all_digits(digits) && spec_digits_value(digits) <= u64::MAX {
        Some(spec_digits_value(digits) as u64)
    } else {
        None
    }
}

/// `unix_millis` is what a reading of the system clock gave.
pub closed spec fn spec_clock_read(unix_millis: Option<u128>) -> bool {
    call_ensures(unix_time_millis, (), unix_millis)
}

/// `fill` is what a draw from the random source gave.
pub closed spec fn spec_fill_drawn(fill: [u8; 2]) -> bool {
    call_ensures(random_fill, (), fill)
}

/// Reads the system clock through `SystemTime::now` and
/// `SystemTime::duration_since`: the whole milliseconds since the Unix epoch,
/// or `None` where the clock reads earlier than that. Nothing is claimed of
/// the number.
#[verifier::external_body]
fn unix_time_millis() -> (millis: Option<u128>) {
    match SystemTime::now().duration_since(UNIX_EPOCH) {
        Ok(elapsed) => Some(elapsed.as_millis()),
        Err(_) => None,
    }
}

/// Two bytes from `rand`'s `SmallRng`, seeded by `SeedableRng::from_os_rng`
/// and drawn by `RngCore::fill_bytes`. Nothing is claimed of the bytes. The
/// seeding panics where the operating system has no entropy to give.
#[verifier::external_body]
fn random_fill() -> (fill: [u8; 2]) {
    let mut rng = SmallRng::from_os_rng();
    let mut fill = [0u8; 2];
    rng.fill_bytes(&mut fill);
    fill
}

fn digit_str(d: u64) -> (s: &'static str)
    requires
        d < 10,
    ensures
        s@ == seq![spec_digit_char(d as nat)],
{
    proof {
        reveal_strlit("0");
        reveal_strlit("1");
        reveal_strlit("2");
        reveal_strlit("3");
        reveal_strlit("4");
        reveal_strlit("5");
        reveal_strlit("6");
        reveal_strlit("7");
        reveal_strlit("8");
        reveal_strlit("9");
    }
    let s = if d == 0 {
        "0"
    } else if d == 1 {
        "1"
    } else if d == 2 {
        "2"
    } else if d == 3 {
        "3"
    } else if d == 4 {
        "4"
    } else if d == 5 {
        "5"
    } else if d == 6 {
        "6"
    } else if d == 7 {
        "7"
    } else if d == 8 {
        "8"
    } else {
        "9"
    };
    assert(s@ =~= seq![spec_digit_char(d as nat)]);
    s
}

fn digit_of(c: char) -> (d: Option<u64>)
    ensures
        match d {
            Some(v) => v < 10 && spec_digit_value(c) == Some(v as nat),
            None => spec_digit_value(c) is None,
        },
{
    if c == '0' {
        Some(0)
    } else if c == '1' {
        Some(1)
    } else if c == '2' {
        Some(2)
    } else if c == '3' {
        Some(3)
    } else if c == '4' {
        Some(4)
    } else if c == '5' {
        Some(5)
    } else if c == '6' {
        Some(6)
    } else if c == '7' {
        Some(7)
    } else if c == '8' {
        Some(8)
    } else if c == '9' {
        Some(9)
    } else {
        None
    }
}

/// The canonical decimal text of `n`.
pub fn format_decimal(n: u64) -> (text: String)
    ensures
        text@ == spec_decimal(n as nat),
    decreases n,
{
    if n < 10 {
        String::from_str(digit_str(n))
    } else {
        let mut text = format_decimal(n / 10);
        text.append(digit_str(n % 10));
        text
    }
}

/// A prefix of a digit string denotes no more than the whole string.
proof fn lemma_prefix_value(s: Seq<char>, k: int)
    requires
        0 <= k <= s.len(),
    ensures
        spec_digits_value(s.take(k)) <= spec_digits_value(s),
    decreases s.len(),
{
    if k == s.len() {
        assert(s.take(k) =~= s);
    } else {
        assert(s.drop_last().take(k) =~= s.take(k));
        lemma_prefix_value(s.drop_last(), k);
    }
}

/// Reads a decimal text as a 64-bit number.
pub fn parse_decimal(s: &str) -> (value: Option<u64>)
    ensures
        value == spec_parse_decimal(s@),
{
    let len = s.unicode_len();
    if len == 0 {
        return None;
    }
    let start: usize = if s.get_char(0) == '+' {
        1
    } else {
        0
    };
    if start == len {
        return None;
    }
    let ghost digits = spec_unsigned_part(s@);
    assert(digits =~= s@.skip(start as int));
    let mut value: u64 = 0;
    let mut i: usize = start;
    while i < len
        invariant
            start <= i <= len,
            len == s@.len(),
            digits == spec_unsigned_part(s@),
            digits.len() == len - start,
            spec_all_digits(digits.take(i - start)),
            value == spec_digits_value(digits.take(i - start)),
        decreases len - i,
    {
        let c = s.get_char(i);
        let ghost k = i - start;
        assert(digits[k] == c);
        assert(digits.take(k + 1).drop_last() =~= digits.take(k));
        assert(digits.take(k + 1).last() == c);
        match digit_of(c) {
            None => {
                assert(spec_digit_value(digits[k]) is None);
                return None;
            },
            Some(d) => {
                proof {
                    lemma_prefix_value(digits, k + 1);
                    assert(spec_digits_value(digits.take(k + 1)) == 10 * value + d);
                }
                let scaled = match value.checked_mul(10) {
                    Some(v) => v,
                    None => {
                        return None;
                    },
                };
                value = match scaled.checked_add(d) {
                    Some(v) => v,
                    None => {
                        return None;
                    },
                };
                assert forall|j: int| 0 <= j < k + 1 implies (#[trigger] spec_digit_value(
                    digits.take(k + 1)[j],
                )) is Some by {
                    if j < k {
                        assert(digits.take(k)[j] == digits.take(k + 1)[j]);
                    }
                }
            },
        }
        i += 1;
    }
    assert(digits.take(len - start) =~= digits);
    Some(value)
}

impl SnowflakeId {
    /// The identifier as a 64-bit integer.
    pub closed spec fn spec_as_u64(&self) -> u64 {
        self.value
    }

    /// The identifier that a 64-bit integer stands for.
    pub closed spec fn spec_from_u64(value: u64) -> Self {
        SnowflakeId { value }
    }

    /// The milliseconds since the identifier epoch that the identifier
    /// carries in its high 48 bits.
    pub open spec fn spec_timestamp_millis(&self) -> u64 {
        self.spec_as_u64() / RANDOM_SPAN
    }

    /// The random fill that the identifier carries in its low 16 bits.
    pub open spec fn spec_random(&self) -> u64 {
        self.spec_as_u64() % RANDOM_SPAN
    }

    #[verifier::when_used_as_spec(spec_timestamp_millis)]
    pub fn timestamp_millis(&self) -> (millis: u64)
        ensures
            millis == self.spec_timestamp_millis(),
            millis < TIMESTAMP_SPAN,
    {
        self.value / RANDOM_SPAN
    }

    #[verifier::when_used_as_spec(spec_random)]
    pub fn random(&self) -> (fill: u64)
        ensures
            fill == self.spec_random(),
            fill < RANDOM_SPAN,
    {
        self.value % RANDOM_SPAN
    }

    /// A fresh identifier from the system clock and the random source: what
    /// `from_clock` makes of one reading of the clock and one draw of
    /// random fill. It fails only where the clock could not be read or
    /// reads earlier than the identifier epoch.
    pub fn generate() -> (id: Result<Self, ClockError>)
        ensures
            exists|unix_millis: Option<u128>, fill: [u8; 2]|
                #![trigger spec_clock_read(unix_millis), spec_fill_drawn(fill)]
                {
                    &&& spec_clock_read(unix_millis)
                    &&& spec_fill_drawn(fill)
                    &&& match id {
                        Ok(id) => spec_from_clock(unix_millis, fill) == Ok::<u64, ClockError>(
                            id.spec_as_u64(),
                        ),
                        Err(e) => spec_from_clock(unix_millis, fill) == Err::<u64, ClockError>(e),
                    }
                },
    {
        let now = unix_time_millis();
        let fill = random_fill();
        assert(spec_clock_read(now) && spec_fill_drawn(fill));
        Self::from_clock(now, fill)
    }

    /// The identifier for a clock reading, in milliseconds since the Unix
    /// epoch, and a random fill. Fails only where the clock could not be
    /// read or reads earlier than the identifier epoch.
    pub fn from_clock(unix_millis: Option<u128>, fill: [u8; 2]) -> (id: Result<Self, ClockError>)
        ensures
            match id {
                Ok(id) => spec_from_clock(unix_millis, fill) == Ok::<u64, ClockError>(id.spec_as_u64()),
                Err(e) => spec_from_clock(unix_millis, fill) == Err::<u64, ClockError>(e),
            },
    {
        let epoch_millis: u128 = (SESSION_EPOCH_SECONDS as u128) * 1000;
        match unix_millis {
            Some(now) => {
                if now >= epoch_millis {
                    let elapsed: u128 = now - epoch_millis;
                    let stamp: u64 = (elapsed % (TIMESTAMP_SPAN as u128)) as u64;
                    let low: u64 = (fill[0] as u64) * 256 + (fill[1] as u64);
                    Ok(SnowflakeId { value: stamp * RANDOM_SPAN + low })
                } else {
                    Err(ClockError {  })
                }
            },
            None => Err(ClockError {  }),
        }
    }

    #[verifier::when_used_as_spec(spec_from_u64)]
    pub fn from_u64(value: u64) -> (id: Self)
        ensures
            id == Self::spec_from_u64(value),
            id.spec_as_u64() == value,
    {
        SnowflakeId { value }
    }

    #[verifier::when_used_as_spec(spec_as_u64)]
    pub fn as_u64(&self) -> (value: u64)
        ensures
            value == self.spec_as_u64(),
    {
        self.value
    }

    /// The identifier that a decimal text denotes.
    pub fn from_str(s: &str) -> (id: Option<Self>)
        ensures
            match id {
                Some(id) => spec_parse_decimal(s@) == Some(id.spec_as_u64()),
                None => spec_parse_decimal(s@) is None,
            },
    {
        match parse_decimal(s) {
            Some(value) => Some(Self::from_u64(value)),
            None => None,
        }
    }

    /// The canonical decimal text of the identifier.
    pub fn to_string(&self) -> (text: String)
        ensures
            text@ == spec_decimal(self.spec_as_u64() as nat),
    {
        format_decimal(self.value)
    }

    /// Whether two identifiers are the same.
    pub fn same(&self, other: &Self) -> (same: bool)
        ensures
            same == (self.spec_as_u64() == other.spec_as_u64()),
            same == (*self == *other),
    {
        self.value == other.value
    }

    /// An identifier is its 64-bit integer and nothing else.
    pub proof fn lemma_equal_by_value(a: Self, b: Self)
        ensures
            (a == b) <==> (a.spec_as_u64() == b.spec_as_u64()),
    {
    }

    /// Converting an integer to an identifier and back gives the integer;
    /// converting an identifier to an integer and back gives the identifier.
    pub proof fn lemma_integer_round_trip(value: u64, id: Self)
        ensures
            Self::spec_from_u64(value).spec_as_u64() == value,
            Self::spec_from_u64(id.spec_as_u64()) == id,
    {
    }
}

impl Default for SnowflakeId {
    fn default() -> (id: Self)
        ensures
            id.spec_as_u64() == 0,
    {
        SnowflakeId { value: 0 }
    }
}

/// The canonical decimal text of a number is made of digits alone, at least
/// one, and denotes that number.
pub proof fn lemma_decimal_digits(n: nat)
    ensures
        spec_decimal(n).len() > 0,
        spec_all_digits(spec_decimal(n)),
        spec_digits_value(spec_decimal(n)) == n,
        spec_decimal(n)[0] != '+',
    decreases n,
{
    let text = spec_decimal(n);
    if n < 10 {
        assert(text =~= seq![spec_digit_char(n)]);
        assert(text.drop_last() =~= Seq::<char>::empty());
        assert(text.last() == spec_digit_char(n));
        assert(spec_digits_value(text.drop_last()) == 0);
    } else {
        lemma_decimal_digits(n / 10);
        let head = spec_decimal(n / 10);
        assert(text.drop_last() =~= head);
        assert(text.last() == spec_digit_char(n % 10));
        assert(text[0] == head[0]);
        assert forall|i: int| 0 <= i < text.len() implies (#[trigger] spec_digit_value(
            text[i],
        )) is Some by {
            if i < head.len() {
                assert(text[i] == head[i]);
            }
        }
    }
}

/// The canonical decimal text of a 64-bit number reads back as that number.
pub proof fn lemma_decimal_round_trip(n: u64)
    ensures
        spec_parse_decimal(spec_decimal(n as nat)) == Some(n),
{
    lemma_decimal_digits(n as nat);
}

/// The parts of an identifier are the clock reading, reduced to 48 bits, and
/// the random fill it was composed of.
pub proof fn lemma_compose_parts(elapsed_millis: nat, fill: nat)
    requires
        fill < RANDOM_SPAN,
    ensures
        spec_compose(elapsed_millis, fill) <= u64::MAX,
        SnowflakeId::spec_from_u64(spec_compose(elapsed_millis, fill) as u64).spec_timestamp_millis()
            == elapsed_millis % (TIMESTAMP_SPAN as nat),
        SnowflakeId::spec_from_u64(spec_compose(elapsed_millis, fill) as u64).spec_random() == fill,
{
    let stamp = elapsed_millis % (TIMESTAMP_SPAN as nat);
    assert(stamp < 0x1_0000_0000_0000);
    assert((stamp * 0x1_0000 + fill) / 0x1_0000 == stamp && (stamp * 0x1_0000 + fill) % 0x1_0000
        == fill) by (nonlinear_arith)
        requires
            fill < 0x1_0000,
    ;
}

/// Identifiers sort by the time they were made at: of two clock readings
/// within the 48-bit span, the later gives the larger identifier, whatever
/// the random fills.
pub proof fn lemma_time_sortable(earlier: nat, fill_a: nat, later: nat, fill_b: nat)
    requires
        earlier < later < TIMESTAMP_SPAN,
        fill_a < RANDOM_SPAN,
        fill_b < RANDOM_SPAN,
    ensures
        spec_compose(earlier, fill_a) < spec_compose(later, fill_b),
{
    assert(earlier * 0x1_0000 + fill_a < later * 0x1_0000 + fill_b) by (nonlinear_arith)
        requires
            earlier < later,
            fill_a < 0x1_0000,
            fill_b < 0x1_0000,
    ;
}

} // verus!

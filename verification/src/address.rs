//! Destination addresses in the strict text form `ddd.ddd.ddd.ddd:pppp`:
//! four octets of one to three decimal digits, each at most 255, joined by
//! dots, then one colon and a port of exactly four decimal digits that is not
//! zero.

use vstd::prelude::*;
use vstd::string::*;

verus! {

/// Shortest text that can be an address: `0.0.0.0:1234`.
pub const ADDRESS_LEN_MIN: usize = 12;

/// Longest text that can be an address: `000.000.000.000:0000`.
pub const ADDRESS_LEN_MAX: usize = 20;

/// An IPv4 address, octet by octet, and a port.
#[derive(Clone, Copy, Debug, PartialEq, Eq, Structural)]
pub struct Endpoint {
    pub a: u8,
    pub b: u8,
    pub c: u8,
    pub d: u8,
    pub port: u16,
}

/// `c` is one of the decimal digits `0` to `9`.
pub open spec fn is_digit(c: char) -> bool {
    '0' <= c && c <= '9'
}

/// The number that a decimal digit stands for.
pub open spec fn digit_value(c: char) -> int {
    c as int - '0' as int
}

/// Every character of `field` is a decimal digit.
pub open spec fn all_digits(field: Seq<char>) -> bool {
    forall|i: int| 0 <= i < field.len() ==> is_digit(#[trigger] field[i])
}

/// The number that a run of decimal digits spells.
pub open spec fn decimal(field: Seq<char>) -> int
    decreases field.len(),
{
    if field.len() == 0 {
        0
    } else {
        10 * decimal(field.drop_last()) + digit_value(field.last())
    }
}

/// One to three digits that spell a number up to 255.
pub open spec fn is_octet(field: Seq<char>) -> bool {
    1 <= field.len() <= 3 && all_digits(field) && decimal(field) <= 255
}

/// Exactly four digits that do not spell zero.
pub open spec fn is_port(field: Seq<char>) -> bool {
    field.len() == 4 && all_digits(field) && decimal(field) > 0
}

/// The five fields joined by their separators.
pub open spec fn address_text(
    a: Seq<char>,
    b: Seq<char>,
    c: Seq<char>,
    d: Seq<char>,
    port: Seq<char>,
) -> Seq<char> {
    a + seq!['.'] + b + seq!['.'] + c + seq!['.'] + d + seq![':'] + port
}

/// `text` is an address whose fields are `a`, `b`, `c`, `d` and `port`.
pub open spec fn spells(
    text: Seq<char>,
    a: Seq<char>,
    b: Seq<char>,
    c: Seq<char>,
    d: Seq<char>,
    port: Seq<char>,
) -> bool {
    &&& text == address_text(a, b, c, d, port)
    &&& is_octet(a)
    &&& is_octet(b)
    &&& is_octet(c)
    &&& is_octet(d)
    &&& is_port(port)
}

/// `text` is an address in the strict form.
pub open spec fn valid_address(text: Seq<char>) -> bool {
    exists|a: Seq<char>, b: Seq<char>, c: Seq<char>, d: Seq<char>, port: Seq<char>|
        spells(text, a, b, c, d, port)
}

/// The endpoint that the five fields spell.
pub open spec fn endpoint_of(
    a: Seq<char>,
    b: Seq<char>,
    c: Seq<char>,
    d: Seq<char>,
    port: Seq<char>,
) -> Endpoint {
    Endpoint {
        a: decimal(a) as u8,
        b: decimal(b) as u8,
        c: decimal(c) as u8,
        d: decimal(d) as u8,
        port: decimal(port) as u16,
    }
}

/// The endpoint that `text` names, if it is an address.
pub open spec fn address_of(text: Seq<char>) -> Option<Endpoint> {
    if valid_address(text) {
        let (a, b, c, d, port) = choose|
            a: Seq<char>,
            b: Seq<char>,
            c: Seq<char>,
            d: Seq<char>,
            port: Seq<char>,
        |
            spells(text, a, b, c, d, port);
        Some(endpoint_of(a, b, c, d, port))
    } else {
        None
    }
}

/// Where the run of digits that starts at `from` ends.
spec fn field_end(text: Seq<char>, from: int) -> int
    decreases text.len() - from,
{
    if 0 <= from < text.len() && is_digit(text[from]) {
        field_end(text, from + 1)
    } else {
        from
    }
}

/// The run of digits that starts at `from`.
spec fn field(text: Seq<char>, from: int) -> Seq<char> {
    text.subrange(from, field_end(text, from))
}

/// The run of digits that starts at `from` is followed by `separator`.
spec fn closed_by(text: Seq<char>, from: int, separator: char) -> bool {
    field_end(text, from) < text.len() && text[field_end(text, from)] == separator
}

/// What reading `text` from left to right yields.
spec fn scanned(text: Seq<char>) -> Option<Endpoint> {
    let b_at = field_end(text, 0) + 1;
    let c_at = field_end(text, b_at) + 1;
    let d_at = field_end(text, c_at) + 1;
    let port_at = field_end(text, d_at) + 1;
    if is_octet(field(text, 0)) && closed_by(text, 0, '.') && is_octet(field(text, b_at))
        && closed_by(text, b_at, '.') && is_octet(field(text, c_at)) && closed_by(text, c_at, '.')
        && is_octet(field(text, d_at)) && closed_by(text, d_at, ':') && is_port(
        field(text, port_at),
    ) && field_end(text, port_at) == text.len() {
        Some(
            endpoint_of(
                field(text, 0),
                field(text, b_at),
                field(text, c_at),
                field(text, d_at),
                field(text, port_at),
            ),
        )
    } else {
        None
    }
}

proof fn lemma_field_end(text: Seq<char>, from: int)
    requires
        0 <= from <= text.len(),
    ensures
        from <= field_end(text, from) <= text.len(),
        all_digits(field(text, from)),
        field_end(text, from) < text.len() ==> !is_digit(text[field_end(text, from)]),
    decreases text.len() - from,
{
    if from < text.len() && is_digit(text[from]) {
        lemma_field_end(text, from + 1);
        let rest = field(text, from + 1);
        let whole = field(text, from);
        assert forall|i: int| 0 <= i < whole.len() implies is_digit(#[trigger] whole[i]) by {
            if i > 0 {
                assert(whole[i] == rest[i - 1]);
            }
        }
    }
}

proof fn lemma_field_end_at(text: Seq<char>, from: int, to: int)
    requires
        0 <= from <= to <= text.len(),
        all_digits(text.subrange(from, to)),
        to < text.len() ==> !is_digit(text[to]),
    ensures
        field_end(text, from) == to,
    decreases to - from,
{
    if from < to {
        assert(text[from] == text.subrange(from, to)[0]);
        assert forall|i: int| 0 <= i < to - (from + 1) implies is_digit(
            #[trigger] text.subrange(from + 1, to)[i],
        ) by {
            assert(text.subrange(from + 1, to)[i] == text.subrange(from, to)[i + 1]);
        }
        lemma_field_end_at(text, from + 1, to);
    }
}

/// A run of up to four digits spells a number below the next power of ten.
proof fn lemma_decimal_bound(field: Seq<char>)
    requires
        all_digits(field),
        field.len() <= 4,
    ensures
        0 <= decimal(field),
        field.len() == 0 ==> decimal(field) == 0,
        field.len() == 1 ==> decimal(field) <= 9,
        field.len() == 2 ==> decimal(field) <= 99,
        field.len() == 3 ==> decimal(field) <= 999,
        field.len() == 4 ==> decimal(field) <= 9999,
    decreases field.len(),
{
    if field.len() > 0 {
        assert(is_digit(field[field.len() - 1]));
        lemma_decimal_bound(field.drop_last());
    }
}

/// An address is spelled by one choice of fields only, which reading from
/// left to right finds.
proof fn lemma_spelled_is_scanned(
    text: Seq<char>,
    a: Seq<char>,
    b: Seq<char>,
    c: Seq<char>,
    d: Seq<char>,
    port: Seq<char>,
)
    requires
        spells(text, a, b, c, d, port),
    ensures
        scanned(text) == Some(endpoint_of(a, b, c, d, port)),
{
    let a_end: int = a.len() as int;
    let b_at: int = a_end + 1;
    let b_end: int = b_at + b.len();
    let c_at: int = b_end + 1;
    let c_end: int = c_at + c.len();
    let d_at: int = c_end + 1;
    let d_end: int = d_at + d.len();
    let port_at: int = d_end + 1;
    let port_end: int = port_at + port.len();
    assert(text.len() == port_end);
    assert(text.subrange(0, a_end) =~= a);
    assert(text.subrange(b_at, b_end) =~= b);
    assert(text.subrange(c_at, c_end) =~= c);
    assert(text.subrange(d_at, d_end) =~= d);
    assert(text.subrange(port_at, port_end) =~= port);
    assert(text[a_end] == '.');
    assert(text[b_end] == '.');
    assert(text[c_end] == '.');
    assert(text[d_end] == ':');
    lemma_field_end_at(text, 0, a_end);
    lemma_field_end_at(text, b_at, b_end);
    lemma_field_end_at(text, c_at, c_end);
    lemma_field_end_at(text, d_at, d_end);
    lemma_field_end_at(text, port_at, port_end);
}

/// What reading from left to right accepts is an address.
proof fn lemma_scanned_is_spelled(text: Seq<char>)
    requires
        scanned(text) is Some,
    ensures
        spells(
            text,
            field(text, 0),
            field(text, field_end(text, 0) + 1),
            field(text, field_end(text, field_end(text, 0) + 1) + 1),
            field(text, field_end(text, field_end(text, field_end(text, 0) + 1) + 1) + 1),
            field(
                text,
                field_end(text, field_end(text, field_end(text, field_end(text, 0) + 1) + 1) + 1)
                    + 1,
            ),
        ),
{
    let b_at = field_end(text, 0) + 1;
    let c_at = field_end(text, b_at) + 1;
    let d_at = field_end(text, c_at) + 1;
    let port_at = field_end(text, d_at) + 1;
    lemma_field_end(text, 0);
    lemma_field_end(text, b_at);
    lemma_field_end(text, c_at);
    lemma_field_end(text, d_at);
    lemma_field_end(text, port_at);
    assert(text =~= address_text(
        field(text, 0),
        field(text, b_at),
        field(text, c_at),
        field(text, d_at),
        field(text, port_at),
    ));
}

/// Reading from left to right decides what `address_of` says.
proof fn lemma_scanned_is_address(text: Seq<char>)
    ensures
        scanned(text) == address_of(text),
{
    if valid_address(text) {
        let (a, b, c, d, port) = choose|
            a: Seq<char>,
            b: Seq<char>,
            c: Seq<char>,
            d: Seq<char>,
            port: Seq<char>,
        |
            spells(text, a, b, c, d, port);
        lemma_spelled_is_scanned(text, a, b, c, d, port);
    } else if scanned(text) is Some {
        lemma_scanned_is_spelled(text);
    }
}

fn is_digit_char(c: char) -> (digit: bool)
    ensures
        digit == is_digit(c),
{
    c >= '0' && c <= '9'
}

fn digit_of(c: char) -> (value: u16)
    requires
        is_digit(c),
    ensures
        value == digit_value(c),
{
    (c as u32 - '0' as u32) as u16
}

fn scan_digits(text: &str, len: usize, from: usize) -> (end: usize)
    requires
        len == text@.len(),
        from <= len,
    ensures
        end == field_end(text@, from as int),
        from <= end <= len,
{
    let mut end = from;
    while end < len && is_digit_char(text.get_char(end))
        invariant
            from <= end <= len,
            len == text@.len(),
            field_end(text@, end as int) == field_end(text@, from as int),
        decreases len - end,
    {
        end += 1;
    }
    end
}

fn field_value(text: &str, from: usize, end: usize) -> (value: u16)
    requires
        from <= end <= text@.len(),
        end - from <= 4,
        all_digits(text@.subrange(from as int, end as int)),
    ensures
        value == decimal(text@.subrange(from as int, end as int)),
{
    let mut value: u16 = 0;
    let mut at = from;
    while at < end
        invariant
            from <= at <= end <= text@.len(),
            end - from <= 4,
            all_digits(text@.subrange(from as int, end as int)),
            value == decimal(text@.subrange(from as int, at as int)),
        decreases end - at,
    {
        let c = text.get_char(at);
        proof {
            let whole = text@.subrange(from as int, end as int);
            let read = text@.subrange(from as int, at as int);
            assert(whole[at - from] == c);
            assert forall|i: int| 0 <= i < read.len() implies is_digit(#[trigger] read[i]) by {
                assert(read[i] == whole[i]);
            }
            lemma_decimal_bound(read);
            assert(text@.subrange(from as int, at + 1).drop_last() =~= read);
        }
        value = value * 10 + digit_of(c);
        at += 1;
    }
    value
}

fn read_octet(text: &str, len: usize, from: usize, separator: char) -> (octet: Option<(u8, usize)>)
    requires
        len == text@.len(),
        from <= len,
    ensures
        match octet {
            Some((value, next)) => {
                &&& is_octet(field(text@, from as int))
                &&& closed_by(text@, from as int, separator)
                &&& value == decimal(field(text@, from as int))
                &&& next == field_end(text@, from as int) + 1
                &&& next <= len
            },
            None => !(is_octet(field(text@, from as int)) && closed_by(
                text@,
                from as int,
                separator,
            )),
        },
{
    let end = scan_digits(text, len, from);
    if end == from || end - from > 3 {
        return None;
    }
    proof {
        lemma_field_end(text@, from as int);
    }
    let value = field_value(text, from, end);
    if value > 255 || end >= len {
        return None;
    }
    if text.get_char(end) != separator {
        return None;
    }
    Some((value as u8, end + 1))
}

impl Endpoint {
    /// Reads an address in the strict form. Text of any other form gives
    /// `None`; that includes text shorter than `ADDRESS_LEN_MIN` or longer
    /// than `ADDRESS_LEN_MAX`, which is turned away before it is read.
    pub fn parse(text: &str) -> (endpoint: Option<Endpoint>)
        ensures
            endpoint == address_of(text@),
            endpoint is Some <==> valid_address(text@),
            endpoint matches Some(read) ==> 1 <= read.port <= 9999,
    {
        let len = text.unicode_len();
        proof {
            lemma_scanned_is_address(text@);
            if valid_address(text@) {
                lemma_port_range(text@);
            }
        }
        if len < ADDRESS_LEN_MIN || len > ADDRESS_LEN_MAX {
            proof {
                if valid_address(text@) {
                    lemma_address_length(text@);
                }
            }
            return None;
        }
        let (a, b_at) = match read_octet(text, len, 0, '.') {
            Some(read) => read,
            None => return None,
        };
        let (b, c_at) = match read_octet(text, len, b_at, '.') {
            Some(read) => read,
            None => return None,
        };
        let (c, d_at) = match read_octet(text, len, c_at, '.') {
            Some(read) => read,
            None => return None,
        };
        let (d, port_at) = match read_octet(text, len, d_at, ':') {
            Some(read) => read,
            None => return None,
        };
        let end = scan_digits(text, len, port_at);
        if end != len || end - port_at != 4 {
            return None;
        }
        proof {
            lemma_field_end(text@, port_at as int);
        }
        let port = field_value(text, port_at, end);
        if port == 0 {
            return None;
        }
        Some(Endpoint { a, b, c, d, port })
    }
}

/// The destination at start, `0.0.0.0:1234`.
pub open spec fn default_text() -> Seq<char> {
    seq!['0', '.', '0', '.', '0', '.', '0', ':', '1', '2', '3', '4']
}

/// Where commands are sent: an address in the strict form, as text and as
/// the endpoint that the text names. Text that is no address never gets in.
#[derive(Debug)]
pub struct Destination {
    text: String,
    endpoint: Endpoint,
}

impl View for Destination {
    type V = Seq<char>;

    closed spec fn view(&self) -> Seq<char> {
        self.text@
    }
}

impl Destination {
    /// The text is an address, and the endpoint is the one it names.
    #[verifier::type_invariant]
    pub closed spec fn well_formed(self) -> bool {
        address_of(self.text@) == Some(self.endpoint)
    }

    /// The destination at start.
    pub fn new() -> (destination: Destination)
        ensures
            destination@ == default_text(),
            address_of(destination@) == Some(
                Endpoint { a: 0, b: 0, c: 0, d: 0, port: 1234 },
            ),
    {
        let text = "0.0.0.0:1234";
        proof {
            reveal_strlit("0.0.0.0:1234");
            assert(text@ =~= default_text());
            lemma_default_text();
        }
        Destination {
            text: text.to_owned(),
            endpoint: Endpoint { a: 0, b: 0, c: 0, d: 0, port: 1234 },
        }
    }

    /// Makes `candidate` the destination if it is an address, and says
    /// whether it did. Text that is no address changes nothing.
    pub fn apply(&mut self, candidate: &str) -> (applied: bool)
        ensures
            applied == valid_address(candidate@),
            final(self)@ == if applied {
                candidate@
            } else {
                old(self)@
            },
            valid_address(final(self)@),
    {
        proof {
            use_type_invariant(&*self);
        }
        match Endpoint::parse(candidate) {
            Some(endpoint) => {
                *self = Destination { text: candidate.to_owned(), endpoint };
                true
            },
            None => false,
        }
    }

    /// The destination as text.
    pub fn as_str(&self) -> (text: &str)
        ensures
            text@ == self@,
            valid_address(text@),
    {
        proof {
            use_type_invariant(self);
        }
        self.text.as_str()
    }

    /// The destination as address and port.
    pub fn endpoint(&self) -> (endpoint: Endpoint)
        ensures
            address_of(self@) == Some(endpoint),
    {
        proof {
            use_type_invariant(self);
        }
        self.endpoint
    }
}

/// The destination at start is an address: all octets 0, port 1234.
pub proof fn lemma_default_text()
    ensures
        address_of(default_text()) == Some(Endpoint { a: 0, b: 0, c: 0, d: 0, port: 1234 }),
{
    let zero = seq!['0'];
    let port = seq!['1', '2', '3', '4'];
    assert(decimal(zero) == 0) by {
        reveal_with_fuel(decimal, 2);
    }
    assert(decimal(port) == 1234) by {
        reveal_with_fuel(decimal, 5);
        assert(port.drop_last() =~= seq!['1', '2', '3']);
        assert(port.drop_last().drop_last() =~= seq!['1', '2']);
        assert(port.drop_last().drop_last().drop_last() =~= seq!['1']);
    }
    assert(default_text() =~= address_text(zero, zero, zero, zero, port));
    lemma_address_of(default_text(), zero, zero, zero, zero, port);
}

/// The fields of an address are determined by its text: whatever fields
/// spell it, `address_of` gives their endpoint, whose octets and port are
/// the numbers that the fields spell.
pub proof fn lemma_address_of(
    text: Seq<char>,
    a: Seq<char>,
    b: Seq<char>,
    c: Seq<char>,
    d: Seq<char>,
    port: Seq<char>,
)
    requires
        spells(text, a, b, c, d, port),
    ensures
        valid_address(text),
        address_of(text) == Some(endpoint_of(a, b, c, d, port)),
        endpoint_of(a, b, c, d, port).a == decimal(a),
        endpoint_of(a, b, c, d, port).b == decimal(b),
        endpoint_of(a, b, c, d, port).c == decimal(c),
        endpoint_of(a, b, c, d, port).d == decimal(d),
        endpoint_of(a, b, c, d, port).port == decimal(port),
{
    lemma_spelled_is_scanned(text, a, b, c, d, port);
    lemma_scanned_is_address(text);
    lemma_decimal_bound(a);
    lemma_decimal_bound(b);
    lemma_decimal_bound(c);
    lemma_decimal_bound(d);
    lemma_decimal_bound(port);
}

/// The port of an address lies between 1 and 9999.
pub proof fn lemma_port_range(text: Seq<char>)
    requires
        valid_address(text),
    ensures
        address_of(text) is Some,
        1 <= address_of(text)->0.port <= 9999,
{
    let (a, b, c, d, port) = choose|
        a: Seq<char>,
        b: Seq<char>,
        c: Seq<char>,
        d: Seq<char>,
        port: Seq<char>,
    |
        spells(text, a, b, c, d, port);
    lemma_decimal_bound(port);
}

/// Every address has between `ADDRESS_LEN_MIN` and `ADDRESS_LEN_MAX`
/// characters.
pub proof fn lemma_address_length(text: Seq<char>)
    requires
        valid_address(text),
    ensures
        ADDRESS_LEN_MIN <= text.len() <= ADDRESS_LEN_MAX,
{
    let (a, b, c, d, port) = choose|
        a: Seq<char>,
        b: Seq<char>,
        c: Seq<char>,
        d: Seq<char>,
        port: Seq<char>,
    |
        spells(text, a, b, c, d, port);
    assert(text.len() == a.len() + b.len() + c.len() + d.len() + port.len() + 4);
}

} // verus!

//! Ports and mappings as the command line writes them.
//!
//! A port is written as an unsigned decimal number from 1 to 65535: digits,
//! with one plus sign before them at most. A mapping is written as a local
//! port, a colon and a remote port. The ports to expose are a list of ports
//! with none named twice.
use std::str::FromStr;
use vstd::prelude::*;
use vstd::string::*;

verus! {

/// Why a text does not name a port.
#[derive(Debug, Clone, Copy, PartialEq, Eq, Structural)]
pub enum PortError {
    /// The text is not an unsigned decimal number that fits sixteen bits.
    NotANumber,
    /// The text is a number, and the number is zero.
    Zero,
}

/// Why a text does not name a mapping.
#[derive(Debug, Clone, Copy, PartialEq, Eq, Structural)]
pub enum MappingError {
    /// The text holds no colon.
    MissingColon,
    /// What stands before the first colon is not a port.
    Local(PortError),
    /// What stands after the first colon is not a port.
    Remote(PortError),
}

/// Why a list of texts does not name a list of ports to expose.
#[derive(Debug, Clone, Copy, PartialEq, Eq, Structural)]
pub enum PortListError {
    /// A text is not a port.
    Invalid(PortError),
    /// A text names a port that an earlier text named.
    Duplicate(u16),
}

/// Whether `c` is one of the ten decimal digits.
pub open spec fn is_digit(c: char) -> bool {
    '0' <= c && c <= '9'
}

/// The value of the decimal digit `c`.
pub open spec fn digit_value(c: char) -> nat {
    (c as u32 - '0' as u32) as nat
}

/// Whether every character of `s` is a decimal digit.
pub open spec fn all_digits(s: Seq<char>) -> bool {
    forall|i: int| 0 <= i < s.len() ==> is_digit(#[trigger] s[i])
}

/// The number that the digits `s` write in base ten.
pub open spec fn decimal_value(s: Seq<char>) -> nat
    decreases s.len(),
{
    if s.len() == 0 {
        0
    } else {
        10 * decimal_value(s.drop_last()) + digit_value(s.last())
    }
}

/// The digits of a number text: the text itself, less one leading plus sign.
pub open spec fn digits_of(s: Seq<char>) -> Seq<char> {
    if s.len() > 0 && s[0] == '+' {
        s.drop_first()
    } else {
        s
    }
}

/// The port that the text `s` names, or why it names none.
pub open spec fn port_of(s: Seq<char>) -> Result<u16, PortError> {
    let d = digits_of(s);
    if d.len() == 0 || !all_digits(d) || decimal_value(d) > 65535 {
        Err(PortError::NotANumber)
    } else if decimal_value(d) == 0 {
        Err(PortError::Zero)
    } else {
        Ok(decimal_value(d) as u16)
    }
}

/// Whether the first colon of `s` stands at index `i`.
pub open spec fn is_first_colon(s: Seq<char>, i: int) -> bool {
    &&& 0 <= i < s.len()
    &&& s[i] == ':'
    &&& forall|j: int| 0 <= j < i ==> s[j] != ':'
}

/// The index of the first colon of `s`, where `s` holds one.
pub open spec fn first_colon(s: Seq<char>) -> int {
    choose|i: int| is_first_colon(s, i)
}

/// The mapping that the text `s` names, or why it names none.
pub open spec fn mapping_of(s: Seq<char>) -> Result<Mapping, MappingError> {
    if !s.contains(':') {
        Err(MappingError::MissingColon)
    } else {
        let at = first_colon(s);
        match port_of(s.take(at)) {
            Err(e) => Err(MappingError::Local(e)),
            Ok(local) => match port_of(s.skip(at + 1)) {
                Err(e) => Err(MappingError::Remote(e)),
                Ok(remote) => Ok(Mapping { local, remote }),
            },
        }
    }
}

/// The texts that the arguments hold.
pub open spec fn texts(args: Seq<String>) -> Seq<Seq<char>> {
    args.map_values(|s: String| s@)
}

/// The numbers of the ports.
pub open spec fn numbers(ports: Seq<Port>) -> Seq<u16> {
    ports.map_values(|p: Port| p@)
}

/// The ports that the texts name, in their order, or what is wrong with the
/// first text that is no port or names a port again.
pub open spec fn ports_of(args: Seq<Seq<char>>) -> Result<Seq<u16>, PortListError>
    decreases args.len(),
{
    if args.len() == 0 {
        Ok(Seq::empty())
    } else {
        match ports_of(args.drop_last()) {
            Err(e) => Err(e),
            Ok(earlier) => match port_of(args.last()) {
                Err(e) => Err(PortListError::Invalid(e)),
                Ok(port) => if earlier.contains(port) {
                    Err(PortListError::Duplicate(port))
                } else {
                    Ok(earlier.push(port))
                },
            },
        }
    }
}

/// The mappings that the texts name, in their order, or what is wrong with
/// the first text that is no mapping.
pub open spec fn mappings_of(args: Seq<Seq<char>>) -> Result<Seq<Mapping>, MappingError>
    decreases args.len(),
{
    if args.len() == 0 {
        Ok(Seq::empty())
    } else {
        match mappings_of(args.drop_last()) {
            Err(e) => Err(e),
            Ok(earlier) => match mapping_of(args.last()) {
                Err(e) => Err(e),
                Ok(mapping) => Ok(earlier.push(mapping)),
            },
        }
    }
}

/// A validated port number (1 to 65535).
#[derive(Debug, Clone, Copy, PartialEq, Eq, Hash, Structural)]
pub struct Port(u16);

impl View for Port {
    type V = u16;

    closed spec fn view(&self) -> u16 {
        self.0
    }
}

impl Port {
    #[verifier::type_invariant]
    spec fn nonzero(self) -> bool {
        self.0 != 0
    }

    /// The port's number.
    pub fn get(self) -> (n: u16)
        ensures
            n == self@,
            1 <= n <= 65535,
    {
        proof {
            use_type_invariant(&self);
        }
        self.0
    }
}

/// The decimal value grows with the text: a prefix of digits writes no more
/// than the whole.
proof fn lemma_decimal_value_prefix(s: Seq<char>, k: int)
    requires
        0 <= k <= s.len(),
    ensures
        decimal_value(s.take(k)) <= decimal_value(s),
    decreases s.len() - k,
{
    if k < s.len() {
        lemma_decimal_value_prefix(s, k + 1);
        assert(s.take(k + 1).drop_last() == s.take(k));
    } else {
        assert(s.take(k) == s);
    }
}

impl FromStr for Port {
    type Err = PortError;

    /// Reads a port from its decimal text.
    fn from_str(s: &str) -> (r: Result<Port, PortError>)
        ensures
            match r {
                Ok(port) => port_of(s@) == Ok::<u16, PortError>(port@),
                Err(e) => port_of(s@) == Err::<u16, PortError>(e),
            },
    {
        let mut value: u32 = 0;
        let mut first = true;
        let mut signed = false;
        let mut any = false;
        for c in it: s.chars()
            invariant
                it.seq() == s@,
                first <==> it.index() == 0,
                signed <==> it.index() > 0 && s@[0] == '+',
                any <==> it.index() > (if signed { 1int } else { 0int }),
                value <= 65535,
                value == decimal_value(digits_of(s@.take(it.index() as int))),
                all_digits(digits_of(s@.take(it.index() as int))),
        {
            let ghost seen = s@.take(it.index() as int);
            let ghost next = s@.take(it.index() as int + 1);
            if first && c == '+' {
                first = false;
                signed = true;
            } else {
                first = false;
                proof {
                    assert(digits_of(next).drop_last() == digits_of(seen));
                    assert(digits_of(next).last() == c);
                    assert(digits_of(next) == digits_of(s@).take(digits_of(next).len() as int));
                }
                if !('0' <= c && c <= '9') {
                    return Err(PortError::NotANumber);
                }
                assert(all_digits(digits_of(next))) by {
                    assert forall|i: int| 0 <= i < digits_of(next).len() implies is_digit(
                        #[trigger] digits_of(next)[i],
                    ) by {
                        if i < digits_of(next).len() - 1 {
                            assert(digits_of(next)[i] == digits_of(next).drop_last()[i]);
                        }
                    }
                }
                let digit = c as u32 - '0' as u32;
                value = 10 * value + digit;
                any = true;
                if value > 65535 {
                    proof {
                        lemma_decimal_value_prefix(digits_of(s@), digits_of(next).len() as int);
                    }
                    return Err(PortError::NotANumber);
                }
            }
        }
        assert(s@.take(s@.len() as int) == s@);
        if !any {
            Err(PortError::NotANumber)
        } else if value == 0 {
            Err(PortError::Zero)
        } else {
            Ok(Port(value as u16))
        }
    }
}

/// A local port and the remote port that it stands for.
#[derive(Debug, Clone, Copy, PartialEq, Eq, Structural)]
pub struct Mapping {
    /// The port listened on, on this side.
    pub local: u16,
    /// The port asked of the peer.
    pub remote: u16,
}

impl Mapping {
    /// Both ends of a mapping are ports: neither is zero.
    pub open spec fn wf(&self) -> bool {
        self.local != 0 && self.remote != 0
    }
}

/// The index of the first colon of `s`, if it holds one.
fn find_colon(s: &str, len: usize) -> (r: Option<usize>)
    requires
        len == s@.len(),
    ensures
        match r {
            Some(at) => is_first_colon(s@, at as int),
            None => !s@.contains(':'),
        },
{
    let mut at: usize = 0;
    for c in it: s.chars()
        invariant
            it.seq() == s@,
            at == it.index(),
            len == s@.len(),
            forall|j: int| 0 <= j < at ==> s@[j] != ':',
    {
        if c == ':' {
            return Some(at);
        }
        at = at + 1;
    }
    None
}

impl FromStr for Mapping {
    type Err = MappingError;

    /// Reads a mapping from its text: a local port, a colon, a remote port.
    fn from_str(s: &str) -> (r: Result<Mapping, MappingError>)
        ensures
            r == mapping_of(s@),
            r matches Ok(m) ==> m.wf(),
    {
        let len = s.unicode_len();
        match find_colon(s, len) {
            None => Err(MappingError::MissingColon),
            Some(at) => {
                assert(first_colon(s@) == at);
                let before = s.substring_char(0, at);
                let after = s.substring_char(at + 1, len);
                match Port::from_str(before) {
                    Err(e) => Err(MappingError::Local(e)),
                    Ok(local) => match Port::from_str(after) {
                        Err(e) => Err(MappingError::Remote(e)),
                        Ok(remote) => Ok(Mapping { local: local.get(), remote: remote.get() }),
                    },
                }
            },
        }
    }
}

/// What is wrong with the beginning of a list is wrong with the list.
proof fn lemma_ports_of_error_stays(args: Seq<Seq<char>>, k: int)
    requires
        0 <= k <= args.len(),
        ports_of(args.take(k)) is Err,
    ensures
        ports_of(args) == ports_of(args.take(k)),
    decreases args.len() - k,
{
    if k < args.len() {
        assert(args.take(k + 1).drop_last() == args.take(k));
        lemma_ports_of_error_stays(args, k + 1);
    } else {
        assert(args.take(k) == args);
    }
}

/// What is wrong with the beginning of a list is wrong with the list.
proof fn lemma_mappings_of_error_stays(args: Seq<Seq<char>>, k: int)
    requires
        0 <= k <= args.len(),
        mappings_of(args.take(k)) is Err,
    ensures
        mappings_of(args) == mappings_of(args.take(k)),
    decreases args.len() - k,
{
    if k < args.len() {
        assert(args.take(k + 1).drop_last() == args.take(k));
        lemma_mappings_of_error_stays(args, k + 1);
    } else {
        assert(args.take(k) == args);
    }
}

/// Whether one of `ports` has the number of `port`.
fn holds(ports: &Vec<Port>, port: Port) -> (r: bool)
    ensures
        r == numbers(ports@).contains(port@),
{
    let mut i: usize = 0;
    while i < ports.len()
        invariant
            i <= ports.len(),
            forall|j: int| 0 <= j < i ==> numbers(ports@)[j] != port@,
        decreases ports.len() - i,
    {
        if ports[i].get() == port.get() {
            assert(numbers(ports@)[i as int] == port@);
            return true;
        }
        i = i + 1;
    }
    false
}

/// Reads the ports to expose: each text a port, none named twice.
pub fn parse_ports(args: &[String]) -> (r: Result<Vec<Port>, PortListError>)
    ensures
        match r {
            Ok(ports) => ports_of(texts(args@)) == Ok::<Seq<u16>, PortListError>(numbers(ports@)),
            Err(e) => ports_of(texts(args@)) == Err::<Seq<u16>, PortListError>(e),
        },
{
    let mut ports: Vec<Port> = Vec::with_capacity(args.len());
    let mut i: usize = 0;
    assert(numbers(ports@) == Seq::<u16>::empty());
    while i < args.len()
        invariant
            i <= args.len(),
            ports_of(texts(args@).take(i as int)) == Ok::<Seq<u16>, PortListError>(
                numbers(ports@),
            ),
        decreases args.len() - i,
    {
        let ghost seen = texts(args@).take(i as int);
        let ghost next = texts(args@).take(i as int + 1);
        assert(next.drop_last() == seen);
        let parsed = Port::from_str(args[i].as_str());
        match parsed {
            Err(e) => {
                proof {
                    lemma_ports_of_error_stays(texts(args@), i as int + 1);
                }
                return Err(PortListError::Invalid(e));
            },
            Ok(port) => {
                if holds(&ports, port) {
                    proof {
                        lemma_ports_of_error_stays(texts(args@), i as int + 1);
                    }
                    return Err(PortListError::Duplicate(port.get()));
                }
                let ghost earlier = numbers(ports@);
                ports.push(port);
                assert(numbers(ports@) == earlier.push(port@));
            },
        }
        i = i + 1;
    }
    assert(texts(args@).take(i as int) == texts(args@));
    Ok(ports)
}

/// Reads the mappings to serve: each text a mapping.
pub fn parse_mappings(args: &[String]) -> (r: Result<Vec<Mapping>, MappingError>)
    ensures
        match r {
            Ok(mappings) => {
                &&& mappings_of(texts(args@)) == Ok::<Seq<Mapping>, MappingError>(mappings@)
                &&& forall|i: int| 0 <= i < mappings@.len() ==> (#[trigger] mappings@[i]).wf()
            },
            Err(e) => mappings_of(texts(args@)) == Err::<Seq<Mapping>, MappingError>(e),
        },
{
    let mut mappings: Vec<Mapping> = Vec::with_capacity(args.len());
    let mut i: usize = 0;
    while i < args.len()
        invariant
            i <= args.len(),
            mappings_of(texts(args@).take(i as int)) == Ok::<Seq<Mapping>, MappingError>(
                mappings@,
            ),
            forall|j: int| 0 <= j < mappings@.len() ==> (#[trigger] mappings@[j]).wf(),
        decreases args.len() - i,
    {
        let ghost seen = texts(args@).take(i as int);
        let ghost next = texts(args@).take(i as int + 1);
        assert(next.drop_last() == seen);
        match Mapping::from_str(args[i].as_str()) {
            Err(e) => {
                proof {
                    lemma_mappings_of_error_stays(texts(args@), i as int + 1);
                }
                return Err(e);
            },
            Ok(mapping) => {
                mappings.push(mapping);
            },
        }
        i = i + 1;
    }
    assert(texts(args@).take(i as int) == texts(args@));
    Ok(mappings)
}

/// The character that writes the digit `d`.
pub open spec fn digit_char(d: nat) -> char {
    (('0' as u8 + d) as u8) as char
}

/// The text that writes `n` in base ten, without sign or leading zeros.
pub open spec fn decimal_text(n: nat) -> Seq<char>
    decreases n,
{
    if n < 10 {
        seq![digit_char(n)]
    } else {
        decimal_text(n / 10).push(digit_char(n % 10))
    }
}

/// The decimal text of a number is made of digits, and writes that number.
pub proof fn decimal_text_writes(n: nat)
    ensures
        decimal_text(n).len() > 0,
        all_digits(decimal_text(n)),
        decimal_value(decimal_text(n)) == n,
        digits_of(decimal_text(n)) == decimal_text(n),
    decreases n,
{
    let t = decimal_text(n);
    if n < 10 {
        assert(decimal_value(t.drop_last()) == 0);
    } else {
        decimal_text_writes(n / 10);
        assert(t.drop_last() == decimal_text(n / 10));
    }
}

/// A port's number, written in base ten, reads back as that port; zero and
/// what lies above 65535 read as no port.
pub proof fn port_text_round_trip(n: nat)
    ensures
        1 <= n <= 65535 ==> port_of(decimal_text(n)) == Ok::<u16, PortError>(n as u16),
        n == 0 ==> port_of(decimal_text(n)) == Err::<u16, PortError>(PortError::Zero),
        n > 65535 ==> port_of(decimal_text(n)) == Err::<u16, PortError>(PortError::NotANumber),
{
    decimal_text_writes(n);
}

/// A text that holds anything but digits after an optional leading plus sign,
/// or that holds no digit, names no port.
pub proof fn port_text_rejects_non_numbers(s: Seq<char>, i: int)
    requires
        0 <= i < s.len(),
        !is_digit(s[i]),
        i > 0 || s[0] != '+',
    ensures
        port_of(s) == Err::<u16, PortError>(PortError::NotANumber),
        port_of(Seq::<char>::empty()) == Err::<u16, PortError>(PortError::NotANumber),
        port_of(seq!['+']) == Err::<u16, PortError>(PortError::NotANumber),
{
    let d = digits_of(s);
    if s[0] == '+' {
        assert(d[i - 1] == s[i]);
    }
}

/// The text of a port holds no colon.
pub proof fn port_text_has_no_colon(s: Seq<char>)
    requires
        port_of(s) is Ok,
    ensures
        !s.contains(':'),
{
    if s.contains(':') {
        let i = choose|i: int| 0 <= i < s.len() && s[i] == ':';
        port_text_rejects_non_numbers(s, i);
    }
}

/// A text made of a part without colon, a colon and a second part names the
/// mapping of the ports that the two parts name, or fails on the first part
/// that names none.
pub proof fn mapping_text_splits(before: Seq<char>, after: Seq<char>)
    requires
        !before.contains(':'),
    ensures
        mapping_of(before.push(':') + after) == match port_of(before) {
            Err(e) => Err::<Mapping, MappingError>(MappingError::Local(e)),
            Ok(local) => match port_of(after) {
                Err(e) => Err::<Mapping, MappingError>(MappingError::Remote(e)),
                Ok(remote) => Ok::<Mapping, MappingError>(Mapping { local, remote }),
            },
        },
{
    let s = before.push(':') + after;
    let at = before.len() as int;
    assert(is_first_colon(s, at));
    assert(s.take(at) == before);
    assert(s.skip(at + 1) == after);
}

/// A port's text, a colon and a second port's text name the mapping of the
/// two ports, local and remote as written.
pub proof fn mapping_text_round_trip(before: Seq<char>, after: Seq<char>)
    requires
        port_of(before) is Ok,
        port_of(after) is Ok,
    ensures
        mapping_of(before.push(':') + after) == Ok::<Mapping, MappingError>(
            Mapping { local: port_of(before)->Ok_0, remote: port_of(after)->Ok_0 },
        ),
{
    port_text_has_no_colon(before);
    mapping_text_splits(before, after);
}

/// A text names a mapping only if each side of its first colon names a port;
/// the mapping then holds those two ports, neither of them zero.
pub proof fn mapping_text_faults(s: Seq<char>)
    ensures
        !s.contains(':') ==> mapping_of(s) == Err::<Mapping, MappingError>(
            MappingError::MissingColon,
        ),
        mapping_of(s) matches Ok(m) ==> {
            &&& s.contains(':')
            &&& port_of(s.take(first_colon(s))) == Ok::<u16, PortError>(m.local)
            &&& port_of(s.skip(first_colon(s) + 1)) == Ok::<u16, PortError>(m.remote)
            &&& m.wf()
        },
{
}

/// Where a list of texts names a list of ports, each text names the port at
/// its own place, and no port stands at two places.
pub proof fn port_list_is_in_order(args: Seq<Seq<char>>)
    requires
        ports_of(args) is Ok,
    ensures
        ports_of(args)->Ok_0.len() == args.len(),
        forall|i: int|
            0 <= i < args.len() ==> port_of(#[trigger] args[i]) == Ok::<u16, PortError>(
                ports_of(args)->Ok_0[i],
            ),
        forall|i: int, j: int|
            0 <= i < j < args.len() ==> ports_of(args)->Ok_0[i] != ports_of(args)->Ok_0[j],
    decreases args.len(),
{
    if args.len() > 0 {
        let earlier = ports_of(args.drop_last())->Ok_0;
        let ports = ports_of(args)->Ok_0;
        port_list_is_in_order(args.drop_last());
        assert forall|i: int| 0 <= i < args.len() implies port_of(#[trigger] args[i]) == Ok::<
            u16,
            PortError,
        >(ports[i]) by {
            if i < args.len() - 1 {
                assert(args[i] == args.drop_last()[i]);
            }
        }
        assert forall|i: int, j: int| 0 <= i < j < args.len() implies ports[i] != ports[j] by {
            if j == args.len() - 1 {
                assert(!earlier.contains(ports[j]));
            }
        }
    }
}

/// A list in which two texts name the same port, or are the same text, names
/// no list of ports.
pub proof fn port_list_fails_on_repeat(args: Seq<Seq<char>>, i: int, j: int)
    requires
        0 <= i < j < args.len(),
        port_of(args[i]) == port_of(args[j]),
    ensures
        ports_of(args) is Err,
{
    if ports_of(args) is Ok {
        port_list_is_in_order(args);
    }
}

/// A list of texts that each name a port, no two the same, names those
/// ports, in the order of the texts.
pub proof fn port_list_keeps_order(args: Seq<Seq<char>>)
    requires
        forall|i: int| 0 <= i < args.len() ==> port_of(#[trigger] args[i]) is Ok,
        forall|i: int, j: int|
            0 <= i < j < args.len() ==> port_of(#[trigger] args[i]) != port_of(#[trigger] args[j]),
    ensures
        ports_of(args) is Ok,
        ports_of(args)->Ok_0.len() == args.len(),
        forall|i: int|
            0 <= i < args.len() ==> port_of(#[trigger] args[i]) == Ok::<u16, PortError>(
                ports_of(args)->Ok_0[i],
            ),
    decreases args.len(),
{
    if args.len() > 0 {
        let front = args.drop_last();
        assert forall|i: int| 0 <= i < front.len() implies port_of(#[trigger] front[i]) is Ok by {
            assert(front[i] == args[i]);
        }
        assert forall|i: int, j: int| 0 <= i < j < front.len() implies port_of(
            #[trigger] front[i],
        ) != port_of(#[trigger] front[j]) by {
            assert(front[i] == args[i] && front[j] == args[j]);
        }
        port_list_keeps_order(front);
        let earlier = ports_of(front)->Ok_0;
        let port = port_of(args.last())->Ok_0;
        if earlier.contains(port) {
            let k = choose|k: int| 0 <= k < earlier.len() && earlier[k] == port;
            assert(port_of(front[k]) == Ok::<u16, PortError>(earlier[k]));
        }
        port_list_is_in_order(args);
    }
}

} // verus!

//! Address pools: a base address and a count of low-order bits that are
//! chosen afresh for every address taken from the pool.
//!
//! A pool is written `a.b.c.d/n`. The `n` is not a routing prefix: it counts
//! the bits, from the least significant up, in which an address of the pool
//! may differ from the base. A text without `/n` stands for `n = 32`, the
//! pool of all addresses.

use crate::ipv4::{
    address_of, ipv4_text, lemma_address_of_text, lemma_ipv4_text_chars, parse_ipv4, push_ipv4,
};
use crate::text::{
    all_digits, capped_value, chars_of, decimal_text, decimal_value, find_char, is_digit,
    lemma_decimal_text_is_numeral, lemma_value_of_decimal_text, push_decimal, run_end,
};
use crate::words::{cut, split_words, word_at, words};
use vstd::prelude::*;
use vstd::slice::slice_subrange;
use vstd::std_specs::convert::TryFromSpecImpl;

verus! {

/// Why a text is not a pool.
#[derive(Clone, Copy, Debug, PartialEq, Eq, Structural)]
pub enum IPAddrPoolError {
    /// The address is not a dotted-decimal IPv4 address, or the bit count
    /// is not a number.
    InvalidAddressSpec,
    /// The bit count is a number above 32.
    PrefixOutOfRange,
}

/// A base address and the number of its low-order bits that vary.
#[derive(Clone, Copy, Debug, PartialEq, Eq)]
pub struct IPAddrPool {
    addr: u32,
    bits: u8,
}

/// The number that a bit count's text denotes: an optional `+`, then one or
/// more digits, leading zeros among them or not. `None` for any other text.
pub open spec fn width_of(s: Seq<char>) -> Option<nat> {
    let digits = if s.len() > 0 && s[0] == '+' {
        s.subrange(1, s.len() as int)
    } else {
        s
    };
    if digits.len() > 0 && all_digits(digits) {
        Some(decimal_value(digits))
    } else {
        None
    }
}

/// The base address and bit count that `s` denotes, or why it denotes none.
///
/// The text is split at its first `/`. What stands before must be the text
/// of an address, what stands after a bit count of at most 32. Without a
/// `/` the whole text is the address and the bit count is 32. A bad address
/// is reported before a bad bit count.
pub open spec fn parse_pool(s: Seq<char>) -> Result<(u32, u8), IPAddrPoolError> {
    let (address, width) = match s.index_of_first('/') {
        Some(i) => (address_of(s.subrange(0, i)), width_of(s.subrange(i + 1, s.len() as int))),
        None => (address_of(s), Some(32nat)),
    };
    match (address, width) {
        (None, _) => Err(IPAddrPoolError::InvalidAddressSpec),
        (Some(_), None) => Err(IPAddrPoolError::InvalidAddressSpec),
        (Some(addr), Some(n)) => if n > 32 {
            Err(IPAddrPoolError::PrefixOutOfRange)
        } else {
            Ok((addr, n as u8))
        },
    }
}

/// The text of the pool with base `addr` and bit count `bits`.
pub open spec fn pool_text(addr: u32, bits: u8) -> Seq<char> {
    ipv4_text(addr) + seq!['/'] + decimal_text(bits as nat)
}

/// The bits of an address that a pool of bit count `bits` chooses afresh:
/// the low `bits` bits.
pub open spec fn mask_of(bits: u8) -> u32 {
    if bits >= 32 {
        0xFFFF_FFFFu32
    } else {
        ((1u32 << (bits as u32)) - 1) as u32
    }
}

/// The address that a pool gives for the random number `draw`.
pub open spec fn mix(addr: u32, bits: u8, draw: u32) -> u32 {
    addr ^ (draw & mask_of(bits))
}

impl View for IPAddrPool {
    type V = (u32, u8);

    /// The base address and the bit count.
    closed spec fn view(&self) -> (u32, u8) {
        (self.addr, self.bits)
    }
}

impl IPAddrPool {
    #[verifier::type_invariant]
    spec fn valid(self) -> bool {
        self.bits <= 32
    }

    /// The base address.
    pub fn addr(&self) -> (a: u32)
        ensures
            a == self@.0,
    {
        self.addr
    }

    /// The number of low-order bits that vary, at most 32.
    pub fn bits(&self) -> (b: u8)
        ensures
            b == self@.1,
            b <= 32,
    {
        proof {
            use_type_invariant(self);
        }
        self.bits
    }

    /// The text of the pool, `a.b.c.d/n`, which `try_from` reads back as
    /// this pool.
    pub fn into(self) -> (text: String)
        ensures
            text@ == pool_text(self@.0, self@.1),
    {
        let mut text = String::new();
        push_ipv4(&mut text, self.addr);
        text.push('/');
        push_decimal(&mut text, self.bits as u32);
        assert(text@ =~= pool_text(self.addr, self.bits));
        text
    }

    /// The address of the pool that the random number `draw` selects: the
    /// base address with `draw`'s low bits, as many as the pool's bit
    /// count, XORed in.
    pub fn address_for(&self, draw: u32) -> (a: u32)
        ensures
            a == mix(self@.0, self@.1, draw),
    {
        proof {
            use_type_invariant(self);
        }
        let mask: u32 = if self.bits >= 32 {
            0xFFFF_FFFF
        } else {
            let k: u32 = self.bits as u32;
            assert((1u32 << k) >= 1) by (bit_vector)
                requires
                    k < 32,
            ;
            (1u32 << k) - 1
        };
        self.addr ^ (draw & mask)
    }

    /// An address of the pool, chosen at random: `address_for` of a fresh
    /// random number. With a bit count of 0 this is always the base
    /// address.
    pub fn get_rng_ip(&self) -> (a: u32)
        ensures
            exists|draw: u32| a == mix(self@.0, self@.1, draw),
            a & !mask_of(self@.1) == self@.0 & !mask_of(self@.1),
            self@.1 < 32 ==> a >> (self@.1 as u32) == self@.0 >> (self@.1 as u32),
            self@.1 == 0 ==> a == self@.0,
    {
        proof {
            use_type_invariant(self);
        }
        let draw = random_draw();
        let a = self.address_for(draw);
        proof {
            assert(a == mix(self@.0, self@.1, draw));
            lemma_mix_keeps_high_bits(self@.0, self@.1, draw);
        }
        a
    }
}

/// A random 32-bit number from `rand`'s thread-local generator,
/// `rand::thread_rng().gen()`. Nothing is claimed of the value.
#[verifier::external_body]
pub(crate) fn random_draw() -> (draw: u32) {
    rand::Rng::gen(&mut rand::thread_rng())
}

/// An address of a pool differs from the base in the low bits only, as many
/// as the bit count says: what lies above them is the base's. With a bit
/// count of 0 it is the base itself, whatever was drawn.
pub proof fn lemma_mix_keeps_high_bits(addr: u32, bits: u8, draw: u32)
    requires
        bits <= 32,
    ensures
        mix(addr, bits, draw) & !mask_of(bits) == addr & !mask_of(bits),
        bits < 32 ==> mix(addr, bits, draw) >> (bits as u32) == addr >> (bits as u32),
        bits == 0 ==> mix(addr, bits, draw) == addr,
{
    let m = mask_of(bits);
    let k = bits as u32;
    assert((addr ^ (draw & m)) & !m == addr & !m) by (bit_vector);
    if bits < 32 {
        assert((addr ^ (draw & m)) >> k == addr >> k) by (bit_vector)
            requires
                k < 32,
                m == ((1u32 << k) - 1) as u32,
        ;
    }
    if bits == 0 {
        assert(addr ^ (draw & m) == addr) by (bit_vector)
            requires
                m == ((1u32 << 0u32) - 1) as u32,
        ;
    }
}

/// Reading the text of a pool gives the base address and bit count that it
/// was written from.
pub proof fn lemma_parse_pool_of_text(addr: u32, bits: u8)
    requires
        bits <= 32,
    ensures
        parse_pool(pool_text(addr, bits)) == Ok::<(u32, u8), IPAddrPoolError>((addr, bits)),
{
    let head = ipv4_text(addr);
    let tail = decimal_text(bits as nat);
    let s = pool_text(addr, bits);
    let cut = head.len() as int;
    lemma_ipv4_text_chars(addr);
    lemma_decimal_text_is_numeral(bits as nat);
    lemma_value_of_decimal_text(bits as nat);
    lemma_address_of_text(addr);
    assert(s[cut] == '/');
    assert(s.contains('/'));
    assert forall|j: int| 0 <= j < cut implies s[j] != '/' by {
        assert(s[j] == head[j]);
    }
    s.index_of_first_ensures('/');
    assert(s.index_of_first('/') == Some(cut));
    assert(s.subrange(0, cut) =~= head);
    assert(s.subrange(cut + 1, s.len() as int) =~= tail);
    assert(is_digit(tail[0]));
}

/// Reading, writing and reading again gives what the first reading gave:
/// whatever text a pool was read from, its own text reads as the same pool.
pub proof fn lemma_parse_write_parse(s: Seq<char>)
    requires
        parse_pool(s) is Ok,
    ensures
        parse_pool(pool_text(parse_pool(s).unwrap().0, parse_pool(s).unwrap().1)) == parse_pool(s),
{
    let (addr, bits) = parse_pool(s).unwrap();
    lemma_parse_pool_of_text(addr, bits);
}

/// The bit count written in `s`, or 33 where it is 33 or more.
fn read_width(s: &[char]) -> (r: Option<u32>)
    ensures
        match width_of(s@) {
            None => r is None,
            Some(n) => r == Some(if n < 33 { n as u32 } else { 33u32 }),
        },
{
    let n = s.len();
    let start: usize = if n > 0 && s[0] == '+' { 1 } else { 0 };
    let ghost digits = s@.subrange(start as int, n as int);
    assert(s@.subrange(0, n as int) =~= s@);
    if start == n {
        return None;
    }
    let end = run_end(s, start);
    if end != n {
        assert(!is_digit(digits[end - start]));
        return None;
    }
    Some(capped_value(s, start, n, 33))
}

impl TryFrom<String> for IPAddrPool {
    type Error = IPAddrPoolError;

    /// The pool that `value` denotes.
    fn try_from(value: String) -> (r: Result<IPAddrPool, IPAddrPoolError>)
        ensures
            match r {
                Ok(pool) => parse_pool(value@) == Ok::<(u32, u8), IPAddrPoolError>(pool@),
                Err(e) => parse_pool(value@) == Err::<(u32, u8), IPAddrPoolError>(e),
            },
    {
        let chars = chars_of(value.as_str());
        let s = chars.as_slice();
        let n = s.len();
        let (address, width) = match find_char(s, '/') {
            Some(i) => (
                parse_ipv4(slice_subrange(s, 0, i)),
                read_width(slice_subrange(s, i + 1, n)),
            ),
            None => (parse_ipv4(s), Some(32u32)),
        };
        match (address, width) {
            (None, _) => Err(IPAddrPoolError::InvalidAddressSpec),
            (Some(_), None) => Err(IPAddrPoolError::InvalidAddressSpec),
            (Some(addr), Some(n)) => if n > 32 {
                Err(IPAddrPoolError::PrefixOutOfRange)
            } else {
                Ok(IPAddrPool { addr, bits: n as u8 })
            },
        }
    }
}

impl TryFromSpecImpl<String> for IPAddrPool {
    open spec fn obeys_try_from_spec() -> bool {
        true
    }

    closed spec fn try_from_spec(value: String) -> Result<IPAddrPool, IPAddrPoolError> {
        match parse_pool(value@) {
            Ok((addr, bits)) => Ok(IPAddrPool { addr, bits }),
            Err(e) => Err(e),
        }
    }
}

/// Why an address could not be had on a device, or not be given back.
#[derive(Clone, Copy, Debug, PartialEq, Eq, Structural)]
pub enum PoolError {
    /// The device's listing names no address: no word `inet` with an
    /// `address/prefix` word after it.
    NoAddressFound,
    /// The command that was to put or find the address on the device
    /// ended with a status other than 0.
    AddressAssignmentFailed,
    /// The command that was to take the address off the device ended with
    /// a status other than 0.
    AddressReleaseFailed,
}

/// An address that is taken to be configured on a device for the length of
/// one scan. A lease is given back once, by `drop`, which consumes it.
#[derive(Debug, PartialEq, Eq)]
pub struct IpHold<'a> {
    addr: u32,
    del: bool,
    dev: &'a str,
}

/// What a lease stands for.
pub struct Lease {
    /// The leased address.
    pub addr: u32,
    /// Whether the address was put on the device for this lease and is to
    /// be taken off again. Otherwise it was found there and stays.
    pub owned: bool,
    /// The device's name.
    pub dev: Seq<char>,
}

/// A command counts as done when it ended with status 0, and also when it
/// left no status because a signal ended it.
pub open spec fn clean_exit(code: Option<i32>) -> bool {
    code is None || code == Some(0i32)
}

/// The word `inet`, which precedes an IPv4 address in a device's listing.
pub open spec fn inet() -> Seq<char> {
    seq!['i', 'n', 'e', 't']
}

/// The address that a device's listing names: the word after the first
/// word `inet` must have the form `address/prefix`, and what stands before
/// its first `/` must be the text of an address.
pub open spec fn listed_address(output: Seq<char>) -> Option<u32> {
    let ws = words(output);
    match ws.index_of_first(inet()) {
        None => None,
        Some(i) => if i + 1 < ws.len() {
            match ws[i + 1].index_of_first('/') {
                None => None,
                Some(j) => address_of(ws[i + 1].subrange(0, j)),
            }
        } else {
            None
        },
    }
}

impl<'a> View for IpHold<'a> {
    type V = Lease;

    closed spec fn view(&self) -> Lease {
        Lease { addr: self.addr, owned: self.del, dev: self.dev@ }
    }
}

/// Whether the command ended in a way that counts as done.
pub fn exited_cleanly(code: Option<i32>) -> (r: bool)
    ensures
        r == clean_exit(code),
{
    match code {
        None => true,
        Some(c) => c == 0,
    }
}

/// Whether `w` is the word `inet`.
fn is_inet(w: &[char]) -> (r: bool)
    ensures
        r == (w@ == inet()),
{
    let r = w.len() == 4 && w[0] == 'i' && w[1] == 'n' && w[2] == 'e' && w[3] == 't';
    assert(r ==> w@ =~= inet());
    assert(!r ==> w@ != inet()) by {
        if w@ == inet() {
            assert(inet().len() == 4 && inet()[0] == 'i' && inet()[1] == 'n' && inet()[2] == 'e'
                && inet()[3] == 't');
        }
    }
    r
}

/// The address that the listing `output` names.
pub fn find_listed_address(output: &str) -> (r: Option<u32>)
    ensures
        r == listed_address(output@),
{
    let chars = chars_of(output);
    let s = chars.as_slice();
    let spans = split_words(s);
    let ghost ws = words(s@);
    let mut i: usize = 0;
    while i < spans.len()
        invariant
            i <= spans@.len(),
            s@ == output@,
            ws == words(s@),
            cut(s@, spans@) == ws,
            spans@.len() == ws.len(),
            forall|k: int|
                0 <= k < spans@.len() ==> (#[trigger] spans@[k]).0 <= spans@[k].1 <= s@.len(),
            forall|k: int| 0 <= k < i ==> ws[k] != inet(),
        decreases spans@.len() - i,
    {
        assert(ws[i as int] == s@.subrange(spans@[i as int].0 as int, spans@[i as int].1 as int));
        if is_inet(word_at(s, spans[i])) {
            proof {
                assert(ws.contains(inet()));
                ws.index_of_first_ensures(inet());
                assert(ws.index_of_first(inet()) == Some(i as int));
            }
            if i + 1 >= spans.len() {
                return None;
            }
            assert(ws[i + 1] == s@.subrange(
                spans@[i + 1].0 as int,
                spans@[i + 1].1 as int,
            ));
            let word = word_at(s, spans[i + 1]);
            return match find_char(word, '/') {
                None => None,
                Some(j) => parse_ipv4(slice_subrange(word, 0, j)),
            };
        }
        i = i + 1;
    }
    proof {
        ws.index_of_first_ensures(inet());
    }
    None
}

impl IPAddrPool {
    /// The lease that adding `ip` to the device `dev` has earned, given
    /// the status `code` with which the adding command ended.
    ///
    /// The lease is owned: the address is to be taken off the device when
    /// the lease is given back.
    pub fn create_ip<'a>(dev: &'a str, ip: u32, code: Option<i32>) -> (r: Result<
        IpHold<'a>,
        PoolError,
    >)
        ensures
            match r {
                Ok(hold) => clean_exit(code) && hold@ == (Lease { addr: ip, owned: true, dev: dev@ }),
                Err(e) => !clean_exit(code) && e == PoolError::AddressAssignmentFailed,
            },
    {
        if exited_cleanly(code) {
            Ok(IpHold { addr: ip, del: true, dev })
        } else {
            Err(PoolError::AddressAssignmentFailed)
        }
    }

    /// The lease on the address that the device `dev` has already, given
    /// the listing `output` of the device's addresses and the status `code`
    /// with which the listing command ended.
    ///
    /// The lease is not owned: the address stays on the device. A listing
    /// without an address is reported before a bad status.
    pub fn default_ip<'a>(dev: &'a str, output: &str, code: Option<i32>) -> (r: Result<
        IpHold<'a>,
        PoolError,
    >)
        ensures
            match r {
                Ok(hold) => {
                    &&& listed_address(output@) matches Some(addr)
                    &&& clean_exit(code)
                    &&& hold@ == (Lease { addr, owned: false, dev: dev@ })
                },
                Err(e) => match listed_address(output@) {
                    None => e == PoolError::NoAddressFound,
                    Some(_) => !clean_exit(code) && e == PoolError::AddressAssignmentFailed,
                },
            },
    {
        let addr = match find_listed_address(output) {
            Some(addr) => addr,
            None => { return Err(PoolError::NoAddressFound); },
        };
        if exited_cleanly(code) {
            Ok(IpHold { addr, del: false, dev })
        } else {
            Err(PoolError::AddressAssignmentFailed)
        }
    }
}

impl<'a> IpHold<'a> {
    /// The leased address.
    pub fn ip(&self) -> (a: u32)
        ensures
            a == self@.addr,
    {
        self.addr
    }

    /// The device that the address is on.
    pub fn device(&self) -> (dev: &'a str)
        ensures
            dev@ == self@.dev,
    {
        self.dev
    }

    /// Whether the address is to be taken off the device when the lease is
    /// given back.
    pub fn owned(&self) -> (r: bool)
        ensures
            r == self@.owned,
    {
        self.del
    }

    /// Gives the lease back. For an owned lease `code` is the status with
    /// which the command that took the address off the device ended; a
    /// lease that is not owned needs no command and `code` is not looked
    /// at.
    pub fn drop(self, code: Option<i32>) -> (r: Result<(), PoolError>)
        ensures
            r is Ok <==> !self@.owned || clean_exit(code),
            r matches Err(e) ==> e == PoolError::AddressReleaseFailed,
    {
        if self.del && !exited_cleanly(code) {
            Err(PoolError::AddressReleaseFailed)
        } else {
            Ok(())
        }
    }
}

} // verus!

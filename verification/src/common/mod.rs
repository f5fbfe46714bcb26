//! Items shared by the master and the slave nodes: the message set, the
//! bit-level payload model, the variable types and the frames and retry
//! decisions that both nodes hand to the code that drives the bus.
pub mod bitfield;
pub mod messages;
pub mod types;

use crate::common::bitfield::le_word;
use vstd::prelude::*;
use vstd::string::StringSliceAdditionalSpecFns;
use vstd::utf8::valid_utf8;

verus! {

pub const BOARD_NAME_LENGTH: usize = 7;

pub const VAR_NAME_LENGTH: usize = 6;

/// The generic kind of a monitored variable.
#[derive(Debug, Clone, Copy, PartialEq, Eq, Structural)]
pub enum DataGenericType {
    Unsigned,
    Signed,
    Floated,
}

/// A CAN frame as the bus hands it over: its identifier and its payload.
#[derive(Debug)]
pub struct CanMessage<'a> {
    pub id: u16,
    pub payload: &'a [u8],
}

/// A CAN frame that a node has built and that the driver of the bus sends.
#[derive(Debug, Clone, Copy)]
pub struct CanFrame {
    pub id: u16,
    pub payload: [u8; 8],
}

impl CanFrame {
    /// The little-endian word of the payload.
    pub open spec fn word(&self) -> u64 {
        le_word(self.payload@)
    }

    /// The frame as a borrowed message, the form in which a send function
    /// takes it.
    pub fn as_message(&self) -> (m: CanMessage<'_>)
        ensures
            m.id == self.id,
            m.payload@ == self.payload@,
    {
        CanMessage { id: self.id, payload: self.payload.as_slice() }
    }
}

/// Number of counted failures after which a retry loop gives up.
pub const MAX_SEND_TRIES: u8 = 32;

/// Retry decision of the loop `while send().is_err() && tries < 32 { tries += 1 }`.
///
/// After an attempt made with `tries` failures counted, `Some(t)` asks for one
/// more attempt with `t` failures counted and `None` ends the loop.
pub fn next_try_after_send(tries: u8, failed: bool) -> (r: Option<u8>)
    requires
        tries <= MAX_SEND_TRIES,
    ensures
        r == (if failed && tries < MAX_SEND_TRIES {
            Some((tries + 1) as u8)
        } else {
            None::<u8>
        }),
{
    if failed && tries < MAX_SEND_TRIES {
        Some(tries + 1)
    } else {
        None
    }
}

/// Whether a loop of `next_try_after_send` that ended with `tries` counted
/// failures reports the delivery as failed.
pub fn delivery_failed(tries: u8) -> (r: bool)
    ensures
        r == (tries >= MAX_SEND_TRIES),
{
    tries >= MAX_SEND_TRIES
}

/// Retry decision of the loop `while tries < 32 && send().is_err() { tries += 1 }`,
/// which checks the count before each attempt.
///
/// After an attempt made with `tries` failures counted, `Some(t)` asks for one
/// more attempt with `t` failures counted and `None` ends the loop.
pub fn next_try_checked(tries: u8, failed: bool) -> (r: Option<u8>)
    requires
        tries < MAX_SEND_TRIES,
    ensures
        r == (if failed && tries + 1 < MAX_SEND_TRIES {
            Some((tries + 1) as u8)
        } else {
            None::<u8>
        }),
{
    if failed && tries + 1 < MAX_SEND_TRIES {
        Some(tries + 1)
    } else {
        None
    }
}

/// The number of sends that the loop of `next_try_after_send` makes when
/// the `k`-th send fails exactly when `fails[k]` holds, counting from the
/// send made with `tries` failures counted.
pub open spec fn sends_after_send_loop(fails: Seq<bool>, tries: nat) -> nat
    decreases 33 - tries,
{
    if tries < MAX_SEND_TRIES && tries < fails.len() && fails[tries as int] {
        sends_after_send_loop(fails, tries + 1)
    } else {
        tries + 1
    }
}

/// The number of sends that the loop of `next_try_checked` makes, in the
/// same terms.
pub open spec fn sends_checked_loop(fails: Seq<bool>, tries: nat) -> nat
    decreases 32 - tries,
{
    if tries + 1 < MAX_SEND_TRIES && tries < fails.len() && fails[tries as int] {
        sends_checked_loop(fails, tries + 1)
    } else {
        tries + 1
    }
}

/// Law of the send-first retry loop: it sends at least once and at most 33
/// times, stops at the first send that succeeds, and `delivery_failed`
/// holds of its final count exactly when its first 32 sends all failed.
pub proof fn lemma_send_loop(fails: Seq<bool>)
    requires
        fails.len() >= 33,
    ensures
        1 <= sends_after_send_loop(fails, 0) <= 33,
        forall|k: int| 0 <= k < sends_after_send_loop(fails, 0) - 1 ==> #[trigger] fails[k],
        sends_after_send_loop(fails, 0) < 33 ==> !fails[sends_after_send_loop(fails, 0) - 1],
        (sends_after_send_loop(fails, 0) - 1 >= MAX_SEND_TRIES) <==> (forall|k: int|
            0 <= k < 32 ==> #[trigger] fails[k]),
{
    lemma_send_loop_from(fails, 0);
}

proof fn lemma_send_loop_from(fails: Seq<bool>, t: nat)
    requires
        fails.len() >= 33,
        t <= 32,
    ensures
        t + 1 <= sends_after_send_loop(fails, t) <= 33,
        forall|k: int| t <= k < sends_after_send_loop(fails, t) - 1 ==> #[trigger] fails[k],
        sends_after_send_loop(fails, t) < 33 ==> !fails[sends_after_send_loop(fails, t) - 1],
        (sends_after_send_loop(fails, t) - 1 >= MAX_SEND_TRIES) <==> (forall|k: int|
            t <= k < 32 ==> #[trigger] fails[k]),
    decreases 33 - t,
{
    if t < MAX_SEND_TRIES && fails[t as int] {
        lemma_send_loop_from(fails, t + 1);
    }
}

/// Law of the checked retry loop: it sends at least once and at most 32
/// times, and stops at the first send that succeeds.
pub proof fn lemma_checked_loop(fails: Seq<bool>)
    requires
        fails.len() >= 32,
    ensures
        1 <= sends_checked_loop(fails, 0) <= 32,
        forall|k: int| 0 <= k < sends_checked_loop(fails, 0) - 1 ==> #[trigger] fails[k],
        sends_checked_loop(fails, 0) < 32 ==> !fails[sends_checked_loop(fails, 0) - 1],
{
    lemma_checked_loop_from(fails, 0);
}

proof fn lemma_checked_loop_from(fails: Seq<bool>, t: nat)
    requires
        fails.len() >= 32,
        t <= 31,
    ensures
        t + 1 <= sends_checked_loop(fails, t) <= 32,
        forall|k: int| t <= k < sends_checked_loop(fails, t) - 1 ==> #[trigger] fails[k],
        sends_checked_loop(fails, t) < 32 ==> !fails[sends_checked_loop(fails, t) - 1],
    decreases 32 - t,
{
    if t + 1 < MAX_SEND_TRIES && fails[t as int] {
        lemma_checked_loop_from(fails, t + 1);
    }
}

/// Calls std's `core::str::from_utf8` and keeps the `Ok` value.
///
/// Its documentation states that it succeeds exactly when the bytes are
/// valid UTF-8, and that the string then consists of those bytes.  The
/// contract claims exactly this, with vstd's `valid_utf8`.
#[verifier::external_body]
pub(crate) fn str_from_utf8(b: &[u8]) -> (r: Option<&str>)
    ensures
        r is Some <==> valid_utf8(b@),
        r matches Some(s) ==> s.spec_bytes() == b@,
{
    core::str::from_utf8(b).ok()
}

} // verus!

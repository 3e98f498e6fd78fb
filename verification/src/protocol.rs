//! What the driver hands to its interfaces, and the byte encodings it uses.
use vstd::prelude::*;

use crate::commands::{CASET, COLMOD, DISPON, MADCTL, PASET, PTLAR, SLPOUT, SWRESET, TEON, TESCAN};

verus! {

/// One request the driver hands to its controller interface.
pub enum Transfer {
    /// A command byte without parameters.
    Command(u8),
    /// A command byte followed by parameter bytes.
    CommandWithData(u8, Seq<u8>),
    /// Pixel data for display RAM.
    Pixels(Seq<u8>),
}

/// A transfer together with what the interface answered to it.
pub struct Exchange<E> {
    pub transfer: Transfer,
    pub outcome: Result<(), E>,
}

/// The exchanges of a plan whose every transfer was accepted.
pub open spec fn accepted_all<E>(plan: Seq<Transfer>) -> Seq<Exchange<E>> {
    plan.map_values(|t: Transfer| Exchange { transfer: t, outcome: Ok(()) })
}

/// The exchanges of a plan that stopped at its transfer `k`, which the interface refused
/// with `e`.
pub open spec fn refused_at<E>(plan: Seq<Transfer>, k: int, e: E) -> Seq<Exchange<E>> {
    accepted_all(plan.take(k)).push(Exchange { transfer: plan[k], outcome: Err(e) })
}

/// `after` is `before` extended by running `plan` with the given overall outcome: all of
/// it accepted when `Ok`; when `Err(e)`, a prefix of it whose last transfer was refused
/// with `e` (nothing after a refusal is sent).
pub open spec fn performed<E>(
    before: Seq<Exchange<E>>,
    after: Seq<Exchange<E>>,
    plan: Seq<Transfer>,
    outcome: Result<(), E>,
) -> bool {
    match outcome {
        Ok(_) => after == before + accepted_all(plan),
        Err(e) => exists|k: int|
            0 <= k < plan.len() && after == before + #[trigger] refused_at(plan, k, e),
    }
}

/// A single transfer with its outcome performs the one-transfer plan.
pub proof fn lemma_performed_single<E>(before: Seq<Exchange<E>>, t: Transfer, outcome: Result<(), E>)
    ensures
        performed(before, before.push(Exchange { transfer: t, outcome }), seq![t], outcome),
{
    let plan = seq![t];
    match outcome {
        Ok(u) => {
            assert(u == ());
            assert(outcome == Ok::<(), E>(()));
            assert(accepted_all::<E>(plan) =~= seq![Exchange { transfer: t, outcome: Ok(()) }]);
            assert(before.push(Exchange { transfer: t, outcome }) =~= before + accepted_all(plan));
        },
        Err(e) => {
            assert(accepted_all::<E>(plan.take(0)) =~= Seq::<Exchange<E>>::empty());
            assert(before.push(Exchange { transfer: t, outcome }) =~= before + refused_at(
                plan,
                0,
                e,
            ));
        },
    }
}

/// Running two plans one after the other, the first fully accepted, runs their concatenation.
pub proof fn lemma_performed_append<E>(
    before: Seq<Exchange<E>>,
    mid: Seq<Exchange<E>>,
    after: Seq<Exchange<E>>,
    first: Seq<Transfer>,
    second: Seq<Transfer>,
    outcome: Result<(), E>,
)
    requires
        performed(before, mid, first, Ok(())),
        performed(mid, after, second, outcome),
    ensures
        performed(before, after, first + second, outcome),
{
    assert(accepted_all::<E>(first + second) =~= accepted_all::<E>(first) + accepted_all::<E>(
        second,
    ));
    match outcome {
        Ok(_) => {
            assert(after =~= before + accepted_all(first + second));
        },
        Err(e) => {
            let k = choose|k: int|
                0 <= k < second.len() && after == mid + #[trigger] refused_at(second, k, e);
            let k2 = first.len() + k;
            assert((first + second).take(k2) =~= first + second.take(k));
            assert(accepted_all::<E>((first + second).take(k2)) =~= accepted_all::<E>(first)
                + accepted_all::<E>(second.take(k)));
            assert(after =~= before + refused_at(first + second, k2, e));
        },
    }
}

/// A refused plan stays refused when more transfers were planned after it.
pub proof fn lemma_performed_refused_prefix<E>(
    before: Seq<Exchange<E>>,
    after: Seq<Exchange<E>>,
    first: Seq<Transfer>,
    second: Seq<Transfer>,
    e: E,
)
    requires
        performed(before, after, first, Err(e)),
    ensures
        performed(before, after, first + second, Err(e)),
{
    let k = choose|k: int|
        0 <= k < first.len() && after == before + #[trigger] refused_at(first, k, e);
    assert((first + second).take(k) =~= first.take(k));
    assert(refused_at(first + second, k, e) =~= refused_at(first, k, e));
}

/// A 16 bit value as two bytes, most significant first.
pub open spec fn be16(v: u16) -> Seq<u8> {
    seq![(v / 256) as u8, (v % 256) as u8]
}

/// The four parameter bytes of CASET or PASET: start then end, each most significant first.
pub open spec fn range_bytes(start: u16, end: u16) -> Seq<u8> {
    be16(start) + be16(end)
}

/// The transfers that select the drawing window.
pub open spec fn window_plan(x_start: u16, y_start: u16, x_end: u16, y_end: u16) -> Seq<Transfer> {
    seq![
        Transfer::CommandWithData(CASET, range_bytes(x_start, x_end)),
        Transfer::CommandWithData(PASET, range_bytes(y_start, y_end)),
    ]
}

/// Encodes a column or page range for CASET or PASET.
pub fn range_params(start: u16, end: u16) -> (params: Vec<u8>)
    ensures
        params@ == range_bytes(start, end),
{
    let s_hi = (start >> 8) as u8;
    let s_lo = (start & 0xFF) as u8;
    let e_hi = (end >> 8) as u8;
    let e_lo = (end & 0xFF) as u8;
    assert(s_hi == (start / 256) as u8 && s_lo == (start % 256) as u8) by (bit_vector)
        requires
            s_hi == (start >> 8) as u8,
            s_lo == (start & 0xFF) as u8,
    ;
    assert(e_hi == (end / 256) as u8 && e_lo == (end % 256) as u8) by (bit_vector)
        requires
            e_hi == (end >> 8) as u8,
            e_lo == (end & 0xFF) as u8,
    ;
    let mut params: Vec<u8> = Vec::new();
    params.push(s_hi);
    params.push(s_lo);
    params.push(e_hi);
    params.push(e_lo);
    assert(params@ =~= range_bytes(start, end));
    params
}

/// Brightness value after clamping to 10 bits.
pub open spec fn clamped_brightness(value: u16) -> u16 {
    if value < 0x3FF {
        value
    } else {
        0x3FF
    }
}

/// The two WRDISBV parameter bytes: low eight bits, then the two high bits.
pub open spec fn brightness_bytes(value: u16) -> Seq<u8> {
    let b = clamped_brightness(value);
    seq![(b % 256) as u8, (b / 256) as u8]
}

/// Encodes a brightness value (clamped to 0x3FF) for WRDISBV.
pub fn brightness_params(value: u16) -> (params: Vec<u8>)
    ensures
        params@ == brightness_bytes(value),
{
    let brightness = if value < 0x3FF {
        value
    } else {
        0x3FF
    };
    let val_lsb = (brightness & 0xFF) as u8;
    let val_msb = ((brightness >> 8) & 0x03) as u8;
    assert(val_lsb == (brightness % 256) as u8 && val_msb == (brightness / 256) as u8)
        by (bit_vector)
        requires
            brightness <= 0x3FF,
            val_lsb == (brightness & 0xFF) as u8,
            val_msb == ((brightness >> 8) & 0x03) as u8,
    ;
    let mut params: Vec<u8> = Vec::new();
    params.push(val_lsb);
    params.push(val_msb);
    assert(params@ =~= brightness_bytes(value));
    params
}

/// One step of the initialization sequence.
pub enum InitEntry {
    /// Hand a transfer to the controller interface.
    Send(Transfer),
    /// Wait this many milliseconds.
    Wait(u32),
}

/// The initialization sequence for a given COLMOD parameter.
pub open spec fn init_script(colmod: u8) -> Seq<InitEntry> {
    seq![
        InitEntry::Send(Transfer::Command(SWRESET)),
        InitEntry::Wait(10),
        InitEntry::Send(Transfer::Command(SLPOUT)),
        InitEntry::Wait(120),
        InitEntry::Send(Transfer::CommandWithData(COLMOD, seq![colmod])),
        InitEntry::Wait(5),
        InitEntry::Send(Transfer::CommandWithData(MADCTL, seq![0x00u8])),
        InitEntry::Send(Transfer::CommandWithData(TESCAN, seq![0x01u8, 0xC5u8])),
        InitEntry::Send(Transfer::CommandWithData(TEON, seq![0x00u8])),
        InitEntry::Send(Transfer::Command(DISPON)),
        InitEntry::Wait(120),
        InitEntry::Send(Transfer::CommandWithData(PTLAR, seq![0x00u8, 0x80u8, 0x00u8, 0x02u8])),
        InitEntry::Wait(10),
    ]
}

/// The transfers of the initialization sequence, in order, without its waits.
pub open spec fn init_transfers(colmod: u8) -> Seq<Transfer>
    decreases init_script(colmod).len(),
{
    script_transfers(init_script(colmod))
}

/// The transfers of a script, in order, without its waits.
pub open spec fn script_transfers(script: Seq<InitEntry>) -> Seq<Transfer>
    decreases script.len(),
{
    if script.len() == 0 {
        Seq::empty()
    } else {
        let rest = script_transfers(script.drop_last());
        match script.last() {
            InitEntry::Send(t) => rest.push(t),
            InitEntry::Wait(_) => rest,
        }
    }
}

/// What one successful step of the initialization sequence does to the interface's history.
pub open spec fn init_step_accepted<E>(
    before: Seq<Exchange<E>>,
    after: Seq<Exchange<E>>,
    entry: InitEntry,
) -> bool {
    match entry {
        InitEntry::Send(t) => performed(before, after, seq![t], Ok(())),
        InitEntry::Wait(_) => after == before,
    }
}

} // verus!

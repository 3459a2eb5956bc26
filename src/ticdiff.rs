use vstd::prelude::*;
use crate::net_structs::{TicCmd, TicDiff, NET_TICDIFF_FORWARD, NET_TICDIFF_SIDE, NET_TICDIFF_TURN,
    NET_TICDIFF_BUTTONS, NET_TICDIFF_CONSISTANCY, NET_TICDIFF_CHATCHAR, NET_TICDIFF_RAVEN, NET_TICDIFF_STRIFE};
use crate::packet::{has_flag, dec_ticdiff, enc_ticdiff, ticdiff_fits, wire_ticdiff, lemma_ticdiff_wire};

verus! {

/// `flag` when `c` holds, else 0.
pub open spec fn flag_if(c: bool, flag: u32) -> u32 {
    if c { flag } else { 0 }
}

/// The mask of a diff from `last` to `cmd`: plain fields are flagged when
/// they change; the event fields (`chatchar`, `arti`, `inventory`) are
/// flagged whenever they are nonzero.
pub open spec fn diff_mask(last: TicCmd, cmd: TicCmd) -> u32 {
    flag_if(last.forwardmove != cmd.forwardmove, NET_TICDIFF_FORWARD)
        | flag_if(last.sidemove != cmd.sidemove, NET_TICDIFF_SIDE)
        | flag_if(last.angleturn != cmd.angleturn, NET_TICDIFF_TURN)
        | flag_if(last.buttons != cmd.buttons, NET_TICDIFF_BUTTONS)
        | flag_if(last.consistancy != cmd.consistancy, NET_TICDIFF_CONSISTANCY)
        | flag_if(cmd.chatchar != 0, NET_TICDIFF_CHATCHAR)
        | flag_if(last.lookfly != cmd.lookfly || cmd.arti != 0, NET_TICDIFF_RAVEN)
        | flag_if(last.buttons2 != cmd.buttons2 || cmd.inventory != 0, NET_TICDIFF_STRIFE)
}

/// The diff that carries `cmd` relative to the previously sent `last`.
pub open spec fn diff_of(last: TicCmd, cmd: TicCmd) -> TicDiff {
    TicDiff { diff: diff_mask(last, cmd), cmd: cmd }
}

/// The command a diff makes of `base`: flagged fields come from the diff,
/// other plain fields from `base`, other event fields are zero.
pub open spec fn undiff(base: TicCmd, d: TicDiff) -> TicCmd {
    let m = d.diff;
    TicCmd {
        forwardmove: if has_flag(m, NET_TICDIFF_FORWARD) { d.cmd.forwardmove } else { base.forwardmove },
        sidemove: if has_flag(m, NET_TICDIFF_SIDE) { d.cmd.sidemove } else { base.sidemove },
        angleturn: if has_flag(m, NET_TICDIFF_TURN) { d.cmd.angleturn } else { base.angleturn },
        buttons: if has_flag(m, NET_TICDIFF_BUTTONS) { d.cmd.buttons } else { base.buttons },
        consistancy: if has_flag(m, NET_TICDIFF_CONSISTANCY) {
            d.cmd.consistancy
        } else {
            base.consistancy
        },
        chatchar: if has_flag(m, NET_TICDIFF_CHATCHAR) { d.cmd.chatchar } else { 0 },
        lookfly: if has_flag(m, NET_TICDIFF_RAVEN) { d.cmd.lookfly } else { base.lookfly },
        arti: if has_flag(m, NET_TICDIFF_RAVEN) { d.cmd.arti } else { 0 },
        buttons2: if has_flag(m, NET_TICDIFF_STRIFE) { d.cmd.buttons2 } else { base.buttons2 },
        inventory: if has_flag(m, NET_TICDIFF_STRIFE) { d.cmd.inventory } else { 0 },
    }
}

/// Each flag of a diff mask is set exactly when its condition holds, and
/// the mask fits in a byte.
pub proof fn lemma_diff_mask_flags(last: TicCmd, cmd: TicCmd)
    ensures
        has_flag(diff_mask(last, cmd), NET_TICDIFF_FORWARD) == (last.forwardmove != cmd.forwardmove),
        has_flag(diff_mask(last, cmd), NET_TICDIFF_SIDE) == (last.sidemove != cmd.sidemove),
        has_flag(diff_mask(last, cmd), NET_TICDIFF_TURN) == (last.angleturn != cmd.angleturn),
        has_flag(diff_mask(last, cmd), NET_TICDIFF_BUTTONS) == (last.buttons != cmd.buttons),
        has_flag(diff_mask(last, cmd), NET_TICDIFF_CONSISTANCY) == (last.consistancy != cmd.consistancy),
        has_flag(diff_mask(last, cmd), NET_TICDIFF_CHATCHAR) == (cmd.chatchar != 0),
        has_flag(diff_mask(last, cmd), NET_TICDIFF_RAVEN) == (last.lookfly != cmd.lookfly || cmd.arti != 0),
        has_flag(diff_mask(last, cmd), NET_TICDIFF_STRIFE) == (last.buttons2 != cmd.buttons2 || cmd.inventory != 0),
        diff_mask(last, cmd) < 256,
{
    let a = flag_if(last.forwardmove != cmd.forwardmove, 1);
    let b = flag_if(last.sidemove != cmd.sidemove, 2);
    let c = flag_if(last.angleturn != cmd.angleturn, 4);
    let d = flag_if(last.buttons != cmd.buttons, 8);
    let e = flag_if(last.consistancy != cmd.consistancy, 16);
    let f = flag_if(cmd.chatchar != 0, 32);
    let g = flag_if(last.lookfly != cmd.lookfly || cmd.arti != 0, 64);
    let h = flag_if(last.buttons2 != cmd.buttons2 || cmd.inventory != 0, 128);
    lemma_or_of_flags(a, b, c, d, e, f, g, h);
}

proof fn lemma_or_of_flags(a: u32, b: u32, c: u32, d: u32, e: u32, f: u32, g: u32, h: u32) by (bit_vector)
    requires
        a == 0 || a == 1,
        b == 0 || b == 2,
        c == 0 || c == 4,
        d == 0 || d == 8,
        e == 0 || e == 16,
        f == 0 || f == 32,
        g == 0 || g == 64,
        h == 0 || h == 128,
    ensures
        ((a | b | c | d | e | f | g | h) & 1 != 0) == (a == 1),
        ((a | b | c | d | e | f | g | h) & 2 != 0) == (b == 2),
        ((a | b | c | d | e | f | g | h) & 4 != 0) == (c == 4),
        ((a | b | c | d | e | f | g | h) & 8 != 0) == (d == 8),
        ((a | b | c | d | e | f | g | h) & 16 != 0) == (e == 16),
        ((a | b | c | d | e | f | g | h) & 32 != 0) == (f == 32),
        ((a | b | c | d | e | f | g | h) & 64 != 0) == (g == 64),
        ((a | b | c | d | e | f | g | h) & 128 != 0) == (h == 128),
        (a | b | c | d | e | f | g | h) < 256,
{
}

/// Computes the diff that carries `cmd` relative to the previously sent
/// `last`.
pub fn calculate_ticcmd_diff(last: &TicCmd, cmd: &TicCmd) -> (r: TicDiff)
    ensures
        r == diff_of(*last, *cmd),
{
    let m: u32 = (if last.forwardmove != cmd.forwardmove { NET_TICDIFF_FORWARD } else { 0 })
        | (if last.sidemove != cmd.sidemove { NET_TICDIFF_SIDE } else { 0 })
        | (if last.angleturn != cmd.angleturn { NET_TICDIFF_TURN } else { 0 })
        | (if last.buttons != cmd.buttons { NET_TICDIFF_BUTTONS } else { 0 })
        | (if last.consistancy != cmd.consistancy { NET_TICDIFF_CONSISTANCY } else { 0 })
        | (if cmd.chatchar != 0 { NET_TICDIFF_CHATCHAR } else { 0 })
        | (if last.lookfly != cmd.lookfly || cmd.arti != 0 { NET_TICDIFF_RAVEN } else { 0 })
        | (if last.buttons2 != cmd.buttons2 || cmd.inventory != 0 { NET_TICDIFF_STRIFE } else { 0 });
    TicDiff { diff: m, cmd: *cmd }
}

/// Applies a diff to a player's baseline: returns the reconstructed
/// command, which also becomes the new baseline.
pub fn apply_ticcmd_diff(base: &mut TicCmd, diff: &TicDiff) -> (r: TicCmd)
    ensures
        r == undiff(*old(base), *diff),
        *final(base) == r,
{
    let m = diff.diff;
    let mut result = *base;
    if m & NET_TICDIFF_FORWARD != 0 {
        result.forwardmove = diff.cmd.forwardmove;
    }
    if m & NET_TICDIFF_SIDE != 0 {
        result.sidemove = diff.cmd.sidemove;
    }
    if m & NET_TICDIFF_TURN != 0 {
        result.angleturn = diff.cmd.angleturn;
    }
    if m & NET_TICDIFF_BUTTONS != 0 {
        result.buttons = diff.cmd.buttons;
    }
    if m & NET_TICDIFF_CONSISTANCY != 0 {
        result.consistancy = diff.cmd.consistancy;
    }
    if m & NET_TICDIFF_CHATCHAR != 0 {
        result.chatchar = diff.cmd.chatchar;
    } else {
        result.chatchar = 0;
    }
    if m & NET_TICDIFF_RAVEN != 0 {
        result.lookfly = diff.cmd.lookfly;
        result.arti = diff.cmd.arti;
    } else {
        result.arti = 0;
    }
    if m & NET_TICDIFF_STRIFE != 0 {
        result.buttons2 = diff.cmd.buttons2;
        result.inventory = diff.cmd.inventory;
    } else {
        result.inventory = 0;
    }
    *base = result;
    result
}

/// Diffing a command against the baseline and applying the diff to that
/// baseline gives the command back.
pub proof fn lemma_undiff_of_diff(last: TicCmd, cmd: TicCmd)
    ensures
        undiff(last, diff_of(last, cmd)) == cmd,
{
    lemma_diff_mask_flags(last, cmd);
}

/// A command diffed against the last one sent, written into a packet and
/// read back, is rebuilt exactly when the diff is applied to that same
/// baseline: the event fields need no baseline, and the wire keeps every
/// flagged field when the inventory fits in 16 bits and, in low-resolution
/// mode, the angle turn is a multiple of 256.
pub proof fn lemma_diff_wire_round_trip(last: TicCmd, cmd: TicCmd, lowres: bool, pre: Seq<u8>, post: Seq<u8>)
    requires
        -32768 <= cmd.inventory <= 32767,
        lowres ==> cmd.angleturn % 256 == 0,
    ensures
        dec_ticdiff(pre + enc_ticdiff(diff_of(last, cmd), lowres) + post, pre.len() as int, lowres) matches Some(
            (d, n),
        ) && undiff(last, d) == cmd && n == pre.len() + enc_ticdiff(diff_of(last, cmd), lowres).len(),
{
    lemma_diff_mask_flags(last, cmd);
    assert(ticdiff_fits(diff_of(last, cmd), lowres));
    lemma_ticdiff_wire(diff_of(last, cmd), lowres, pre, post);
    assert(undiff(last, wire_ticdiff(diff_of(last, cmd))) == cmd);
}

} // verus!

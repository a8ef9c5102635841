//! Progress of a fetch: the state that the transfer and checkout callbacks
//! keep, the progress line drawn from it, and the summary after download.

use vstd::prelude::*;
use crate::text::{decimal, lemma_decimal_digits, padded_decimal, push_decimal, push_padded};

verus! {

/// Counters of a transfer, as the indexer reports them.
pub struct TransferStats {
    pub total_objects: usize,
    pub indexed_objects: usize,
    pub received_objects: usize,
    pub local_objects: usize,
    pub total_deltas: usize,
    pub indexed_deltas: usize,
    pub received_bytes: usize,
}

/// What the progress display remembers between callbacks: the last transfer
/// counters, the checkout position, the file being checked out, and whether
/// the display has already moved to a fresh line.
pub struct ProgressState {
    pub progress: Option<TransferStats>,
    pub total: usize,
    pub current: usize,
    pub path: Option<String>,
    pub newline: bool,
}

/// A fresh display: nothing received, nothing checked out.
pub fn new_progress_state() -> (st: ProgressState)
    ensures
        st.progress is None,
        st.total == 0,
        st.current == 0,
        st.path is None,
        !st.newline,
{
    ProgressState { progress: None, total: 0, current: 0, path: None, newline: false }
}

/// The counters can be turned into percentages: there is something to
/// transfer and no percentage overflows.
pub open spec fn renderable(st: ProgressState) -> bool {
    &&& st.progress is Some
    &&& st.progress.unwrap().total_objects > 0
    &&& 100 * st.progress.unwrap().received_objects <= usize::MAX
    &&& 100 * st.progress.unwrap().indexed_objects <= usize::MAX
    &&& st.total > 0 ==> 100 * st.current <= usize::MAX
}

pub open spec fn network_percent(p: TransferStats) -> nat {
    ((100 * p.received_objects) / (p.total_objects as int)) as nat
}

pub open spec fn index_percent(p: TransferStats) -> nat {
    ((100 * p.indexed_objects) / (p.total_objects as int)) as nat
}

pub open spec fn checkout_percent(st: ProgressState) -> nat {
    if st.total > 0 {
        ((100 * st.current) / (st.total as int)) as nat
    } else {
        0
    }
}

/// What one redraw of the display writes: when all objects are received, the
/// delta resolution counters (after a line break the first time); otherwise
/// the network, index and checkout counters with their percentages. The
/// text ends with a carriage return, so that the next redraw overwrites it.
pub open spec fn progress_text(st: ProgressState) -> Seq<char> {
    let p = st.progress.unwrap();
    if p.received_objects == p.total_objects {
        (if st.newline { ""@ } else { "\n"@ }) + "Resolving deltas "@ + decimal(p.indexed_deltas as nat) + "/"@
            + decimal(p.total_deltas as nat) + "\r"@
    } else {
        "net "@ + padded_decimal(network_percent(p), 3) + "% ("@
            + padded_decimal((p.received_bytes / 1024) as nat, 4) + " kb, "@
            + padded_decimal(p.received_objects as nat, 5) + "/"@ + padded_decimal(p.total_objects as nat, 5)
            + ")  /  idx "@ + padded_decimal(index_percent(p), 3) + "% ("@
            + padded_decimal(p.indexed_objects as nat, 5) + "/"@ + padded_decimal(p.total_objects as nat, 5)
            + ")  /  chk "@ + padded_decimal(checkout_percent(st), 3) + "% ("@
            + padded_decimal(st.current as nat, 4) + "/"@ + padded_decimal(st.total as nat, 4) + ") "@
            + (match st.path {
                Some(path) => path@,
                None => ""@,
            }) + "\r"@
    }
}

/// Redraws the progress display: returns the text to write, and records that
/// the display has moved to a fresh line once all objects are received.
pub fn render_progress(state: &mut ProgressState) -> (out: String)
    requires
        renderable(*old(state)),
    ensures
        out@ == progress_text(*old(state)),
        old(state).progress.unwrap().received_objects == old(state).progress.unwrap().total_objects ==> out@ == (
            if old(state).newline { ""@ } else { "\n"@ }) + "Resolving deltas "@ + decimal(
            old(state).progress.unwrap().indexed_deltas as nat,
        ) + "/"@ + decimal(old(state).progress.unwrap().total_deltas as nat) + "\r"@,
        old(state).progress.unwrap().received_objects != old(state).progress.unwrap().total_objects ==> (
            out@.take(4) == "net "@ && out@.last() == '\r'),
        final(state).newline == (old(state).newline || old(state).progress.unwrap().received_objects
            == old(state).progress.unwrap().total_objects),
        final(state).progress == old(state).progress,
        final(state).total == old(state).total,
        final(state).current == old(state).current,
        final(state).path == old(state).path,
{
    let p = match &state.progress {
        Some(p) => TransferStats {
            total_objects: p.total_objects,
            indexed_objects: p.indexed_objects,
            received_objects: p.received_objects,
            local_objects: p.local_objects,
            total_deltas: p.total_deltas,
            indexed_deltas: p.indexed_deltas,
            received_bytes: p.received_bytes,
        },
        None => {
            return String::new();
        },
    };
    let network_pct = (100 * p.received_objects) / p.total_objects;
    let index_pct = (100 * p.indexed_objects) / p.total_objects;
    let co_pct = if state.total > 0 {
        (100 * state.current) / state.total
    } else {
        0
    };
    let kbytes = p.received_bytes / 1024;
    proof {
        reveal_strlit("");
    }
    let mut out = String::new();
    if p.received_objects == p.total_objects {
        if !state.newline {
            out.append("\n");
            state.newline = true;
        }
        out.append("Resolving deltas ");
        push_decimal(&mut out, p.indexed_deltas);
        out.append("/");
        push_decimal(&mut out, p.total_deltas);
        out.append("\r");
    } else {
        out.append("net ");
        push_padded(&mut out, network_pct, 3);
        out.append("% (");
        push_padded(&mut out, kbytes, 4);
        out.append(" kb, ");
        push_padded(&mut out, p.received_objects, 5);
        out.append("/");
        push_padded(&mut out, p.total_objects, 5);
        out.append(")  /  idx ");
        push_padded(&mut out, index_pct, 3);
        out.append("% (");
        push_padded(&mut out, p.indexed_objects, 5);
        out.append("/");
        push_padded(&mut out, p.total_objects, 5);
        out.append(")  /  chk ");
        push_padded(&mut out, co_pct, 3);
        out.append("% (");
        push_padded(&mut out, state.current, 4);
        out.append("/");
        push_padded(&mut out, state.total, 4);
        out.append(") ");
        match &state.path {
            Some(path) => out.append(path.as_str()),
            None => {},
        }
        out.append("\r");
    }
    assert(out@ =~= progress_text(*old(state)));
    proof {
        lemma_progress_text(*old(state));
    }
    out
}

/// The transfer callback: records the new counters and redraws.
pub fn on_transfer_progress(state: &mut ProgressState, stats: TransferStats) -> (out: String)
    requires
        renderable(ProgressState { progress: Some(stats), ..*old(state) }),
    ensures
        out@ == progress_text(ProgressState { progress: Some(stats), ..*old(state) }),
        final(state).progress == Some(stats),
        final(state).newline == (old(state).newline || stats.received_objects == stats.total_objects),
        final(state).total == old(state).total,
        final(state).current == old(state).current,
        final(state).path == old(state).path,
{
    state.progress = Some(stats);
    render_progress(state)
}

/// The checkout callback: records the file being checked out and the
/// checkout position.
pub fn on_checkout_progress(state: &mut ProgressState, path: Option<String>, current: usize, total: usize)
    ensures
        final(state).path == path,
        final(state).current == current,
        final(state).total == total,
        final(state).progress == old(state).progress,
        final(state).newline == old(state).newline,
{
    state.path = path;
    state.current = current;
    state.total = total;
}

/// The summary after a download: indexed and total objects and received
/// bytes, and the number of local objects used when there were any. It
/// starts with a carriage return to overwrite the progress line.
pub open spec fn received_summary_spec(p: TransferStats) -> Seq<char> {
    "\rReceived "@ + decimal(p.indexed_objects as nat) + "/"@ + decimal(p.total_objects as nat)
        + " objects in "@ + decimal(p.received_bytes as nat) + " bytes"@ + (if p.local_objects > 0 {
        " (used "@ + decimal(p.local_objects as nat) + " local objects)"@
    } else {
        ""@
    })
}

/// The summary after a download.
pub fn received_summary(p: &TransferStats) -> (line: String)
    ensures
        line@ == received_summary_spec(*p),
{
    proof {
        reveal_strlit("");
    }
    let mut line = String::from_str("\rReceived ");
    push_decimal(&mut line, p.indexed_objects);
    line.append("/");
    push_decimal(&mut line, p.total_objects);
    line.append(" objects in ");
    push_decimal(&mut line, p.received_bytes);
    line.append(" bytes");
    if p.local_objects > 0 {
        line.append(" (used ");
        push_decimal(&mut line, p.local_objects);
        line.append(" local objects)");
    }
    assert(line@ =~= received_summary_spec(*p));
    line
}


/// While no more objects are received or indexed than there are in all, the
/// network and index percentages stay within 0..=100; the checkout
/// percentage does the same while the position does not pass the total.
pub proof fn lemma_percentages_bounded(st: ProgressState)
    requires
        renderable(st),
        st.progress.unwrap().received_objects <= st.progress.unwrap().total_objects,
        st.progress.unwrap().indexed_objects <= st.progress.unwrap().total_objects,
        st.current <= st.total,
    ensures
        network_percent(st.progress.unwrap()) <= 100,
        index_percent(st.progress.unwrap()) <= 100,
        checkout_percent(st) <= 100,
{
    let p = st.progress.unwrap();
    let t = p.total_objects as int;
    assert((100 * p.received_objects) / t <= 100) by (nonlinear_arith)
        requires t > 0, 0 <= p.received_objects <= t;
    assert((100 * p.indexed_objects) / t <= 100) by (nonlinear_arith)
        requires t > 0, 0 <= p.indexed_objects <= t;
    if st.total > 0 {
        let tt = st.total as int;
        assert((100 * st.current) / tt <= 100) by (nonlinear_arith)
            requires tt > 0, 0 <= st.current <= tt;
    }
}


/// Whether the display can be redrawn from this state (see `renderable`).
pub fn can_render(st: &ProgressState) -> (r: bool)
    ensures
        r == renderable(*st),
{
    match &st.progress {
        Some(p) => {
            p.total_objects > 0 && p.received_objects <= usize::MAX / 100 && p.indexed_objects <= usize::MAX / 100
                && (st.total == 0 || st.current <= usize::MAX / 100)
        },
        None => false,
    }
}


/// Once every object is received the display shows delta resolution, and
/// only that: a line break the first time, then the indexed and total
/// delta counts, whatever the other counters are. Before that it shows the
/// network, index and checkout line. Either way the text ends with a
/// carriage return; once the display has moved to a fresh line, delta
/// resolution writes no further line break. The network line gives the
/// received and indexed shares of all objects and the checkout share of all
/// files in whole percent, the kilobytes received, the counts behind each
/// share, then the file being checked out.
pub proof fn lemma_progress_text(st: ProgressState)
    requires
        st.progress is Some,
    ensures
        st.progress.unwrap().received_objects == st.progress.unwrap().total_objects ==> progress_text(st) == (
            if st.newline { ""@ } else { "\n"@ }) + "Resolving deltas "@ + decimal(
            st.progress.unwrap().indexed_deltas as nat,
        ) + "/"@ + decimal(st.progress.unwrap().total_deltas as nat) + "\r"@,
        st.progress.unwrap().received_objects != st.progress.unwrap().total_objects ==> (
            progress_text(st).take(4) == "net "@ && progress_text(st).last() == '\r'),
        ({
            let p = st.progress.unwrap();
            let t = p.total_objects as int;
            p.received_objects != p.total_objects ==> progress_text(st) == "net "@ + padded_decimal(
                ((100 * p.received_objects) / t) as nat,
                3,
            ) + "% ("@ + padded_decimal((p.received_bytes / 1024) as nat, 4) + " kb, "@ + padded_decimal(
                p.received_objects as nat,
                5,
            ) + "/"@ + padded_decimal(p.total_objects as nat, 5) + ")  /  idx "@ + padded_decimal(
                ((100 * p.indexed_objects) / t) as nat,
                3,
            ) + "% ("@ + padded_decimal(p.indexed_objects as nat, 5) + "/"@ + padded_decimal(
                p.total_objects as nat,
                5,
            ) + ")  /  chk "@ + padded_decimal(
                (if st.total > 0 { (100 * st.current) / (st.total as int) } else { 0 }) as nat,
                3,
            ) + "% ("@ + padded_decimal(st.current as nat, 4) + "/"@ + padded_decimal(st.total as nat, 4) + ") "@
                + (if st.path is Some { st.path.unwrap()@ } else { ""@ }) + "\r"@
        }),
        st.newline && st.progress.unwrap().received_objects == st.progress.unwrap().total_objects ==> !progress_text(
            st,
        ).contains('\n'),
{
    reveal_strlit("");
    reveal_strlit("\n");
    reveal_strlit("\r");
    reveal_strlit("net ");
    reveal_strlit("Resolving deltas ");
    reveal_strlit("/");
    reveal_strlit("% (");
    reveal_strlit(" kb, ");
    reveal_strlit(")  /  idx ");
    reveal_strlit(")  /  chk ");
    reveal_strlit(") ");
    let t = progress_text(st);
    let p = st.progress.unwrap();
    if p.received_objects != p.total_objects {
        assert(t.take(4) =~= "net "@);
    }
    if st.newline && p.received_objects == p.total_objects {
        lemma_decimal_digits(p.indexed_deltas as nat);
        lemma_decimal_digits(p.total_deltas as nat);
        assert forall|i: int| 0 <= i < t.len() implies t[i] != '\n' by {
            let a = "Resolving deltas "@;
            let b = decimal(p.indexed_deltas as nat);
            let c = decimal(p.total_deltas as nat);
            assert(t =~= a + b + "/"@ + c + "\r"@);
            if i < a.len() {
            } else if i < a.len() + b.len() {
                assert(t[i] == b[i - a.len()]);
            } else if i == a.len() + b.len() {
            } else if i < a.len() + b.len() + 1 + c.len() {
                assert(t[i] == c[i - a.len() - b.len() - 1]);
            }
        }
    }
}

} // verus!

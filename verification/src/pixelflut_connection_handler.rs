//! Per-connection command handling: drain the connection's byte ring
//! command by command, execute each against the canvas, and collect
//! what has to be written back.  `HELP` and `SIZE` are counted and
//! answered at most once per batch, to keep a small request from
//! amplifying into large egress; pixel reads are answered one reply
//! each, in order.  A protocol or execution error closes the
//! connection.

use vstd::prelude::*;

use crate::canvas::{Canvas, CanvasView};
use crate::command::{spec_handle_command, StaticReplies};
use crate::command_ring::{CommandRing, CommandRingError, ParseOutcome, spec_parse};
use crate::parser_laws::lemma_parse_bounds;
use crate::replies::{format_size_reply, spec_size_reply};

verus! {

/// The per-socket state a lackey keeps: who is writing, their `OFFSET`
/// translation, and the byte ring the socket reads into.
pub struct Connection {
    pub user_id: u32,
    pub user_offset: (u32, u32),
    pub command_ring: CommandRing,
}

impl Connection {
    /// A fresh connection for `user_id` with an empty ring of
    /// `buffer_size` bytes and no offset.
    pub fn new(user_id: u32, buffer_size: usize) -> (res: Connection)
        requires
            buffer_size >= 1,
        ensures
            res.command_ring.wf(),
            res.command_ring.spec_capacity() == buffer_size,
            res.command_ring.contents() == Seq::<u8>::empty(),
            res.user_id == user_id,
            res.user_offset == (0u32, 0u32),
    {
        Connection { user_id, user_offset: (0, 0), command_ring: CommandRing::new(buffer_size) }
    }
}

/// Serves the connections of one worker ring: it owns that ring's
/// canvas handle and the precomputed `SIZE` reply.
pub struct PixelflutConnectionHandler {
    pub canvas: Canvas,
    pub size_reply_buffer: Vec<u8>,
}

impl PixelflutConnectionHandler {
    /// A handler around `canvas`, with the `SIZE` reply rendered once.
    pub fn new(canvas: Canvas) -> (res: PixelflutConnectionHandler)
        ensures
            res.canvas == canvas,
            res.size_reply_buffer@ == spec_size_reply(canvas@.width, canvas@.height),
    {
        let size_reply_buffer = format_size_reply(canvas.width(), canvas.height());
        PixelflutConnectionHandler { canvas, size_reply_buffer }
    }

    /// Drain one read batch of `conn` against this handler's canvas;
    /// see [`process_batch`].
    pub fn handle_batch(&mut self, conn: &mut Connection) -> (res: BatchResult)
        requires
            old(conn).command_ring.wf(),
            old(self).canvas@.wf(),
        ensures
            final(conn).command_ring.wf(),
            final(self).canvas@.wf(),
            final(self).size_reply_buffer == old(self).size_reply_buffer,
            final(conn).user_id == old(conn).user_id,
            final(conn).command_ring.spec_capacity() == old(conn).command_ring.spec_capacity(),
            ({
                let bv = spec_run_batch(
                    old(conn).command_ring.contents(),
                    old(self).canvas@,
                    StaticReplies { help: 0usize, size: 0usize },
                    old(conn).user_offset,
                    old(conn).user_id,
                );
                &&& final(self).canvas@ == bv.canvas
                &&& final(conn).user_offset == bv.offset
                &&& res.pixel_replies.deep_view() == bv.replies
                &&& res.static_replies == bv.counters
                &&& res.closed == bv.closed
                &&& final(conn).command_ring.contents() == bv.residue
            }),
    {
        process_batch(conn, &mut self.canvas)
    }
}

/// What one read batch asks the caller to do: send each pixel reply in
/// order, send the `SIZE` and `HELP` replies at most once each if their
/// counters are positive, and close the connection if `closed`.
pub struct BatchResult {
    pub pixel_replies: Vec<Vec<u8>>,
    pub static_replies: StaticReplies,
    pub closed: bool,
}

/// The cumulative effect of draining one batch: the canvas and offset
/// afterwards, the pixel replies in order, the `HELP`/`SIZE` counters,
/// whether the connection must close, and the bytes left unconsumed.
pub struct BatchView {
    pub canvas: CanvasView,
    pub offset: (u32, u32),
    pub replies: Seq<Seq<u8>>,
    pub counters: StaticReplies,
    pub closed: bool,
    pub residue: Seq<u8>,
}

/// Drain commands from the front of `s` and execute each, as the read
/// loop does: a partial command ends the batch with its bytes kept; a
/// parse or execution error ends it with the connection closed.  No
/// replies are collected after an error: the pixel replies gathered
/// before it were already submitted, the coalesced ones never are.
#[verifier::opaque]
pub open spec fn spec_run_batch(
    s: Seq<u8>,
    canvas: CanvasView,
    sr: StaticReplies,
    offset: (u32, u32),
    user_id: u32,
) -> BatchView
    decreases s.len(),
{
    match spec_parse(s) {
        ParseOutcome::Incomplete => BatchView {
            canvas,
            offset,
            replies: Seq::<Seq<u8>>::empty(),
            counters: sr,
            closed: false,
            residue: s,
        },
        ParseOutcome::Failed(e, n) => BatchView {
            canvas,
            offset,
            replies: Seq::<Seq<u8>>::empty(),
            counters: sr,
            closed: true,
            residue: if 0 <= n <= s.len() {
                s.skip(n)
            } else {
                s
            },
        },
        ParseOutcome::Parsed(cmd, n) => if 1 <= n <= s.len() {
            let eff = spec_handle_command(cmd, canvas, sr, user_id, offset);
            if eff.error is Some {
                BatchView {
                    canvas: eff.canvas,
                    offset: eff.offset,
                    replies: Seq::<Seq<u8>>::empty(),
                    counters: eff.replies,
                    closed: true,
                    residue: s.skip(n),
                }
            } else {
                let rest = spec_run_batch(s.skip(n), eff.canvas, eff.replies, eff.offset, user_id);
                BatchView {
                    canvas: rest.canvas,
                    offset: rest.offset,
                    replies: (match eff.reply {
                        Some(r) => seq![r],
                        None => Seq::<Seq<u8>>::empty(),
                    }) + rest.replies,
                    counters: rest.counters,
                    closed: rest.closed,
                    residue: rest.residue,
                }
            }
        } else {
            BatchView {
                canvas,
                offset,
                replies: Seq::<Seq<u8>>::empty(),
                counters: sr,
                closed: false,
                residue: s,
            }
        },
    }
}

/// One unfolding of the batch at a partial command: the batch ends
/// open with everything as it stands.
proof fn lemma_batch_incomplete(
    s: Seq<u8>,
    canvas: CanvasView,
    sr: StaticReplies,
    offset: (u32, u32),
    uid: u32,
)
    requires
        spec_parse(s) is Incomplete,
    ensures
        spec_run_batch(s, canvas, sr, offset, uid) == (BatchView {
            canvas,
            offset,
            replies: Seq::<Seq<u8>>::empty(),
            counters: sr,
            closed: false,
            residue: s,
        }),
{
    reveal(spec_run_batch);
}

/// One unfolding of the batch at a protocol error: the offending bytes
/// are consumed and the batch ends closed.
proof fn lemma_batch_parse_error(
    s: Seq<u8>,
    canvas: CanvasView,
    sr: StaticReplies,
    offset: (u32, u32),
    uid: u32,
    e: CommandRingError,
    n: int,
)
    requires
        spec_parse(s) == ParseOutcome::Failed(e, n),
        0 <= n <= s.len(),
    ensures
        spec_run_batch(s, canvas, sr, offset, uid) == (BatchView {
            canvas,
            offset,
            replies: Seq::<Seq<u8>>::empty(),
            counters: sr,
            closed: true,
            residue: s.skip(n),
        }),
{
    reveal(spec_run_batch);
}

/// One unfolding of the batch at a parsed command: the command's
/// effect happens, then the rest of the batch runs on what is left.
proof fn lemma_batch_step(
    s: Seq<u8>,
    canvas: CanvasView,
    sr: StaticReplies,
    offset: (u32, u32),
    uid: u32,
    cmd: crate::command::Command,
    n: int,
)
    requires
        spec_parse(s) == ParseOutcome::Parsed(cmd, n),
        1 <= n <= s.len(),
    ensures
        ({
            let eff = spec_handle_command(cmd, canvas, sr, uid, offset);
            let bvc = spec_run_batch(s, canvas, sr, offset, uid);
            &&& eff.replies.help + eff.replies.size <= sr.help + sr.size + 1
            &&& eff.error is Some ==> bvc == (BatchView {
                canvas: eff.canvas,
                offset: eff.offset,
                replies: Seq::<Seq<u8>>::empty(),
                counters: eff.replies,
                closed: true,
                residue: s.skip(n),
            })
            &&& eff.error is None ==> ({
                let rest = spec_run_batch(s.skip(n), eff.canvas, eff.replies, eff.offset, uid);
                &&& bvc.canvas == rest.canvas
                &&& bvc.offset == rest.offset
                &&& bvc.replies == (match eff.reply {
                    Some(r) => seq![r],
                    None => Seq::<Seq<u8>>::empty(),
                }) + rest.replies
                &&& bvc.counters == rest.counters
                &&& bvc.closed == rest.closed
                &&& bvc.residue == rest.residue
            })
        }),
{
    reveal(spec_run_batch);
    reveal(spec_handle_command);
}

/// Parse and execute every complete command waiting in the
/// connection's ring, exactly as [`spec_run_batch`] describes, with the
/// `HELP`/`SIZE` counters starting at zero.
#[verifier::rlimit(100)]
#[verifier::spinoff_prover]
pub fn process_batch(conn: &mut Connection, canvas: &mut Canvas) -> (res: BatchResult)
    requires
        old(conn).command_ring.wf(),
        old(canvas)@.wf(),
    ensures
        final(conn).command_ring.wf(),
        final(canvas)@.wf(),
        final(conn).user_id == old(conn).user_id,
        final(conn).command_ring.spec_capacity() == old(conn).command_ring.spec_capacity(),
        ({
            let bv = spec_run_batch(
                old(conn).command_ring.contents(),
                old(canvas)@,
                StaticReplies { help: 0usize, size: 0usize },
                old(conn).user_offset,
                old(conn).user_id,
            );
            &&& final(canvas)@ == bv.canvas
            &&& final(conn).user_offset == bv.offset
            &&& res.pixel_replies.deep_view() == bv.replies
            &&& res.static_replies == bv.counters
            &&& res.closed == bv.closed
            &&& final(conn).command_ring.contents() == bv.residue
        }),
{
    let mut pixel_replies: Vec<Vec<u8>> = Vec::new();
    let mut sr = StaticReplies::default();
    let cap = conn.command_ring.capacity();
    proof {
        conn.command_ring.lemma_contents_bounded();
    }
    let ghost s0 = conn.command_ring.contents();
    let ghost c0 = canvas@;
    let ghost off0 = conn.user_offset;
    let ghost uid = conn.user_id;
    let ghost bv0 = spec_run_batch(
        s0,
        c0,
        StaticReplies { help: 0usize, size: 0usize },
        off0,
        uid,
    );
    proof {
        assert(pixel_replies.deep_view() =~= Seq::<Seq<u8>>::empty());
        assert(pixel_replies.deep_view() + bv0.replies =~= bv0.replies);
    }
    loop
        invariant
            conn.command_ring.wf(),
            canvas@.wf(),
            conn.user_id == uid,
            uid == old(conn).user_id,
            conn.command_ring.spec_capacity() == old(conn).command_ring.spec_capacity(),
            s0 == old(conn).command_ring.contents(),
            c0 == old(canvas)@,
            off0 == old(conn).user_offset,
            bv0 == spec_run_batch(
                s0,
                c0,
                StaticReplies { help: 0usize, size: 0usize },
                off0,
                uid,
            ),
            s0.len() <= cap,
            conn.command_ring.contents().len() <= s0.len(),
            sr.help + sr.size <= s0.len() - conn.command_ring.contents().len(),
            ({
                let bvc = spec_run_batch(
                    conn.command_ring.contents(),
                    canvas@,
                    sr,
                    conn.user_offset,
                    uid,
                );
                &&& bv0.canvas == bvc.canvas
                &&& bv0.offset == bvc.offset
                &&& bv0.replies == pixel_replies.deep_view() + bvc.replies
                &&& bv0.counters == bvc.counters
                &&& bv0.closed == bvc.closed
                &&& bv0.residue == bvc.residue
            }),
        decreases conn.command_ring.contents().len(),
    {
        let ghost cur = conn.command_ring.contents();
        let ghost cv = canvas@;
        let ghost sr_g = sr;
        let ghost off_g = conn.user_offset;
        proof {
            lemma_parse_bounds(cur);
        }
        match conn.command_ring.read_next_command() {
            Ok(cmd) => {
                let ghost n = spec_parse(cur)->Parsed_1;
                let ghost eff = spec_handle_command(cmd, cv, sr_g, uid, off_g);
                proof {
                    lemma_batch_step(cur, cv, sr_g, off_g, uid, cmd, n);
                    assert(sr.help < usize::MAX && sr.size < usize::MAX);
                }
                match cmd.handle_command(canvas, &mut sr, conn.user_id, &mut conn.user_offset) {
                    Ok(None) => {
                        proof {
                            let rest = spec_run_batch(
                                conn.command_ring.contents(),
                                canvas@,
                                sr,
                                conn.user_offset,
                                uid,
                            );
                            assert(Seq::<Seq<u8>>::empty() + rest.replies =~= rest.replies);
                        }
                    },
                    Ok(Some(reply)) => {
                        let ghost r = reply@;
                        let ghost dv = pixel_replies.deep_view();
                        pixel_replies.push(reply);
                        proof {
                            let rest = spec_run_batch(
                                conn.command_ring.contents(),
                                canvas@,
                                sr,
                                conn.user_offset,
                                uid,
                            );
                            assert(pixel_replies.deep_view() =~~= dv.push(r));
                            assert(dv + (seq![r] + rest.replies) =~= dv.push(r) + rest.replies);
                        }
                    },
                    Err(_e) => {
                        proof {
                            assert(pixel_replies.deep_view() + Seq::<Seq<u8>>::empty()
                                =~= pixel_replies.deep_view());
                        }
                        return BatchResult { pixel_replies, static_replies: sr, closed: true };
                    },
                }
            },
            Err(CommandRingError::MoreDataRequired) => {
                proof {
                    lemma_batch_incomplete(cur, cv, sr_g, off_g, uid);
                    assert(pixel_replies.deep_view() + Seq::<Seq<u8>>::empty()
                        =~= pixel_replies.deep_view());
                }
                return BatchResult { pixel_replies, static_replies: sr, closed: false };
            },
            Err(_e) => {
                proof {
                    let e2 = spec_parse(cur)->Failed_0;
                    let n2 = spec_parse(cur)->Failed_1;
                    lemma_batch_parse_error(cur, cv, sr_g, off_g, uid, e2, n2);
                    assert(pixel_replies.deep_view() + Seq::<Seq<u8>>::empty()
                        =~= pixel_replies.deep_view());
                }
                return BatchResult { pixel_replies, static_replies: sr, closed: true };
            },
        }
    }
}

} // verus!

//! The commands of the wire protocol and their execution against a canvas
//! and a connection's state.

use vstd::prelude::*;

use crate::bgra::Bgra;
use crate::canvas::{Canvas, CanvasError, CanvasView};
use crate::replies::{format_px_reply, spec_px_reply};

verus! {

/// One parsed protocol command.
#[derive(Debug, Clone, Copy, PartialEq, Eq, Structural)]
pub enum Command {
    Help,
    Size,
    SetPixel { x: u32, y: u32, color: Bgra },
    GetPixel { x: u32, y: u32 },
    Offset { x: u32, y: u32 },
}

/// How often a read batch asked for the fixed HELP and SIZE replies; each
/// is answered at most once per batch.
#[derive(Debug, Clone, Copy, PartialEq, Eq, Structural)]
pub struct StaticReplies {
    pub help: usize,
    pub size: usize,
}

impl Default for StaticReplies {
    /// A batch that has not asked for either fixed reply yet.
    fn default() -> (res: StaticReplies)
        ensures
            res == (StaticReplies { help: 0usize, size: 0usize }),
    {
        StaticReplies { help: 0, size: 0 }
    }
}

/// Errors of command execution.
#[derive(Debug, Clone, Copy, PartialEq, Eq, Structural)]
pub enum CommandExecutionError {
    CanvasError(CanvasError),
}

/// What executing one command does to a connection: the canvas and the
/// per-connection state afterwards, the direct reply if the command
/// asks for one, and the error that closes the connection if it fails.
pub struct CommandEffect {
    pub canvas: CanvasView,
    pub replies: StaticReplies,
    pub offset: (u32, u32),
    pub reply: Option<Seq<u8>>,
    pub error: Option<CommandExecutionError>,
}

/// The meaning of one command, executed for `user_id` against a canvas
/// with the per-connection offset in force.  Pixel coordinates are the
/// command's plus the offset, wrapping modulo 2^32; a coordinate off
/// the canvas is an error.  `HELP` and `SIZE` only bump their counters:
/// each is answered at most once per read batch, after the batch.
#[verifier::opaque]
pub open spec fn spec_handle_command(
    cmd: Command,
    canvas: CanvasView,
    sr: StaticReplies,
    user_id: u32,
    offset: (u32, u32),
) -> CommandEffect {
    match cmd {
        Command::Help => CommandEffect {
            canvas,
            replies: StaticReplies { help: ((sr.help + 1) as usize), size: sr.size },
            offset,
            reply: None,
            error: None,
        },
        Command::Size => CommandEffect {
            canvas,
            replies: StaticReplies { help: sr.help, size: ((sr.size + 1) as usize) },
            offset,
            reply: None,
            error: None,
        },
        Command::SetPixel { x, y, color } => {
            let ax = ((offset.0 + x) % 0x100000000) as u32;
            let ay = ((offset.1 + y) % 0x100000000) as u32;
            if canvas.in_bounds(ax, ay) {
                CommandEffect {
                    canvas: canvas.set_pixel(ax, ay, color, user_id),
                    replies: sr,
                    offset,
                    reply: None,
                    error: None,
                }
            } else {
                CommandEffect {
                    canvas,
                    replies: sr,
                    offset,
                    reply: None,
                    error: Some(
                        CommandExecutionError::CanvasError(
                            CanvasError::PixelOutOfBounds { x: ax, y: ay },
                        ),
                    ),
                }
            }
        },
        Command::GetPixel { x, y } => {
            let ax = ((offset.0 + x) % 0x100000000) as u32;
            let ay = ((offset.1 + y) % 0x100000000) as u32;
            if canvas.in_bounds(ax, ay) {
                CommandEffect {
                    canvas,
                    replies: sr,
                    offset,
                    reply: Some(spec_px_reply(ax, ay, canvas.pixel(ax, ay).spec_to_rgba())),
                    error: None,
                }
            } else {
                CommandEffect {
                    canvas,
                    replies: sr,
                    offset,
                    reply: None,
                    error: Some(
                        CommandExecutionError::CanvasError(
                            CanvasError::PixelOutOfBounds { x: ax, y: ay },
                        ),
                    ),
                }
            }
        },
        Command::Offset { x, y } => {
            if x < canvas.width && y < canvas.height {
                CommandEffect { canvas, replies: sr, offset: (x, y), reply: None, error: None }
            } else {
                CommandEffect {
                    canvas,
                    replies: sr,
                    offset,
                    reply: None,
                    error: Some(
                        CommandExecutionError::CanvasError(CanvasError::PixelOutOfBounds { x, y }),
                    ),
                }
            }
        },
    }
}

impl Command {
    /// Execute this command as [`spec_handle_command`] describes; a
    /// pixel read hands back its reply, ready to send.
    pub fn handle_command(
        self,
        canvas: &mut Canvas,
        static_replies: &mut StaticReplies,
        user_id: u32,
        user_offset: &mut (u32, u32),
    ) -> (res: Result<Option<Vec<u8>>, CommandExecutionError>)
        requires
            old(canvas)@.wf(),
            old(static_replies).help < usize::MAX,
            old(static_replies).size < usize::MAX,
        ensures
            final(canvas)@.wf(),
            ({
                let eff = spec_handle_command(
                    self,
                    old(canvas)@,
                    *old(static_replies),
                    user_id,
                    *old(user_offset),
                );
                &&& final(canvas)@ == eff.canvas
                &&& *final(static_replies) == eff.replies
                &&& *final(user_offset) == eff.offset
                &&& match eff.error {
                    Some(e) => res == Err::<Option<Vec<u8>>, CommandExecutionError>(e),
                    None => match eff.reply {
                        Some(bytes) => res matches Ok(Some(v)) && v@ == bytes,
                        None => res == Ok::<Option<Vec<u8>>, CommandExecutionError>(None),
                    },
                }
            }),
    {
        proof {
            reveal(spec_handle_command);
        }
        match self {
            Command::Help => {
                static_replies.help = static_replies.help + 1;
                Ok(None)
            },
            Command::Size => {
                static_replies.size = static_replies.size + 1;
                Ok(None)
            },
            Command::SetPixel { x, y, color } => {
                let ax = (((user_offset.0 as u64) + (x as u64)) % 0x100000000) as u32;
                let ay = (((user_offset.1 as u64) + (y as u64)) % 0x100000000) as u32;
                match canvas.set_pixel(ax, ay, color, user_id) {
                    Ok(()) => Ok(None),
                    Err(e) => Err(CommandExecutionError::CanvasError(e)),
                }
            },
            Command::GetPixel { x, y } => {
                let ax = (((user_offset.0 as u64) + (x as u64)) % 0x100000000) as u32;
                let ay = (((user_offset.1 as u64) + (y as u64)) % 0x100000000) as u32;
                match canvas.pixel(ax, ay) {
                    Ok(color) => Ok(Some(format_px_reply(ax, ay, color))),
                    Err(e) => Err(CommandExecutionError::CanvasError(e)),
                }
            },
            Command::Offset { x, y } => {
                if x >= canvas.width() || y >= canvas.height() {
                    return Err(
                        CommandExecutionError::CanvasError(CanvasError::PixelOutOfBounds { x, y }),
                    );
                }
                *user_offset = (x, y);
                Ok(None)
            },
        }
    }
}

} // verus!

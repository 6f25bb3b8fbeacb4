//! A marker layer: stamps every outgoing frame with one tag byte and
//! strips the tag from incoming frames that carry it.

use vstd::prelude::*;

use crate::layers::Layer;
use crate::{Command, CommandView};

verus! {

/// A layer that prepends its tag byte to every outgoing frame and strips
/// it from incoming frames that start with it. It reports nothing to the
/// manager. Its only command sends a bare tag as a probe frame.
pub struct Tag {
    /// The byte this layer stamps frames with.
    pub tag: u8,
}

/// The commands owned by a [`Tag`] layer.
pub enum TagCmd {
    /// Send a bare tag byte as a probe frame.
    Probe,
}

impl Tag {
    /// A tag layer stamping with `tag`.
    pub fn new(tag: u8) -> (r: Self)
        ensures
            r.tag == tag,
    {
        Tag { tag }
    }
}

impl Layer for Tag {
    type Command = TagCmd;

    open spec fn spec_initial() -> Self {
        Tag { tag: 0 }
    }

    open spec fn spec_cmd_bytes(pre: Self, cmd: TagCmd) -> Option<Seq<u8>> {
        Some(seq![pre.tag])
    }

    open spec fn spec_cmd_state(pre: Self, cmd: TagCmd) -> Self {
        pre
    }

    open spec fn spec_wrap(pre: Self, frame: Seq<u8>) -> Seq<u8> {
        seq![pre.tag] + frame
    }

    open spec fn spec_wrap_state(pre: Self, frame: Seq<u8>) -> Self {
        pre
    }

    open spec fn spec_unwrap(pre: Self, frame: Seq<u8>) -> Seq<u8> {
        if frame.len() > 0 && frame[0] == pre.tag {
            frame.drop_first()
        } else {
            frame
        }
    }

    open spec fn spec_unwrap_state(pre: Self, frame: Seq<u8>) -> Self {
        pre
    }

    open spec fn spec_unwrap_cmd(pre: Self, frame: Seq<u8>) -> Option<CommandView> {
        None
    }

    fn initialize() -> (r: Self) {
        Tag { tag: 0 }
    }

    fn handle_cmd(&mut self, command: TagCmd) -> (r: Option<Vec<u8>>) {
        let mut out: Vec<u8> = Vec::new();
        out.push(self.tag);
        proof {
            assert(out@ =~= seq![self.tag]);
        }
        Some(out)
    }

    fn handle_outgoing_frame(&mut self, frame: &mut Vec<u8>) {
        frame.insert(0, self.tag);
        proof {
            assert(frame@ =~= seq![self.tag] + old(frame)@);
        }
    }

    fn handle_incoming_frame(&mut self, frame: &mut Vec<u8>) -> (r: Option<Command>) {
        if frame.len() > 0 && frame[0] == self.tag {
            let _ = frame.remove(0);
            proof {
                assert(frame@ =~= old(frame)@.drop_first());
            }
        }
        None
    }
}

} // verus!

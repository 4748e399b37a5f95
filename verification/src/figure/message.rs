//! Overlay messages.

use vstd::prelude::*;
use crate::app_data::{DrawProperties, DrawPropertiesView};
use crate::figure::common::{plain, CommonParams, CommonView};
use crate::text::{chars_of, slice_of, string_of};

verus! {

/// A line of text laid over the scene. Messages of one time step stack from
/// the top in the order in which they were read.
pub struct MMessage {
    /// Position in the stack, counted from 0.
    pub message_ind: usize,
    pub text: String,
    pub common: CommonParams,
}

/// The model of [`MMessage`].
pub struct MMessageView {
    pub message_ind: usize,
    pub text: Seq<char>,
    pub common: CommonView,
}

impl View for MMessage {
    type V = MMessageView;

    open spec fn view(&self) -> MMessageView {
        MMessageView { message_ind: self.message_ind, text: self.text@, common: self.common@ }
    }
}

/// The text of a message line: what follows the keyword and the character
/// after it.
pub open spec fn message_text(line: Seq<char>) -> Seq<char> {
    if line.len() >= 4 {
        line.skip(4)
    } else {
        Seq::empty()
    }
}

/// The message that a line denotes under the given properties.
pub open spec fn message_of(line: Seq<char>, props: DrawPropertiesView) -> MMessageView {
    MMessageView { message_ind: props.was_messages, text: message_text(line), common: plain() }
}

impl MMessage {
    /// Reads a message from its line and counts it: the message takes the
    /// next free place of the stack.
    pub fn from_string(s: &str, draw_properties: &mut DrawProperties) -> (m: MMessage)
        requires
            old(draw_properties).was_messages < usize::MAX,
        ensures
            m@ == message_of(s@, old(draw_properties)@),
            final(draw_properties)@ == (DrawPropertiesView {
                was_messages: (old(draw_properties).was_messages + 1) as usize,
                ..old(draw_properties)@
            }),
    {
        let line = chars_of(s);
        let text = if line.len() >= 4 {
            string_of(slice_of(line.as_slice(), 4, line.len()).as_slice())
        } else {
            String::new()
        };
        let message = MMessage {
            message_ind: draw_properties.was_messages,
            text,
            common: CommonParams::default(),
        };
        draw_properties.was_messages += 1;
        message
    }
}

} // verus!

use vstd::prelude::*;

verus! {

/// Where a message of the bot goes, and in which form.
#[derive(Clone, Copy, Debug, PartialEq, Eq, Structural)]
pub enum BotMessageType {
    AdminRoomHtmlNotice,
    AdminRoomPlainNotice,
    ReportingRoomPlainText,
    ReportingRoomPlainNotice,
}

impl BotMessageType {
    /// True for the variants that are sent to the admin room.
    pub open spec fn spec_is_admin_room(self) -> bool {
        self is AdminRoomHtmlNotice || self is AdminRoomPlainNotice
    }

    /// Tells whether the message goes to the admin room (otherwise to the
    /// reporting room).
    #[verifier::when_used_as_spec(spec_is_admin_room)]
    pub fn is_admin_room(self) -> (r: bool)
        ensures
            r == self.spec_is_admin_room(),
    {
        match self {
            BotMessageType::AdminRoomHtmlNotice => true,
            BotMessageType::AdminRoomPlainNotice => true,
            BotMessageType::ReportingRoomPlainText => false,
            BotMessageType::ReportingRoomPlainNotice => false,
        }
    }
}

} // verus!

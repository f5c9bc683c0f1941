use vstd::prelude::*;

verus! {

/// What to do with a received datagram.
#[derive(PartialEq, Eq, Structural, Debug, Clone, Copy)]
pub enum PacketAction {
    /// No microphone heard speech: nothing is sent back.
    Skip,
    /// Speech was heard: locate the source and send the angle back to the sender.
    ReplyWithAngle,
}

/// Decides on a datagram from what the two detectors found in it: the angle is
/// computed and sent back exactly when at least one microphone heard speech.
pub fn plan_packet(has_speech1: bool, has_speech2: bool) -> (action: PacketAction)
    ensures
        action == (if has_speech1 || has_speech2 {
            PacketAction::ReplyWithAngle
        } else {
            PacketAction::Skip
        }),
{
    if !(has_speech1 || has_speech2) {
        PacketAction::Skip
    } else {
        PacketAction::ReplyWithAngle
    }
}

} // verus!

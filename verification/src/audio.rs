use vstd::prelude::*;

verus! {

/// One datagram of audio: the 16-bit samples of the two microphones.
#[derive(Debug, Clone)]
pub struct AudioData {
    pub mic1: Vec<i16>,
    pub mic2: Vec<i16>,
}

} // verus!

use vstd::prelude::*;

use crate::domain::observation::{chw, encode_observation, observation};
use crate::domain::rules::OBS_CHANNELS;

use super::types::SnakeStateLite;

verus! {

/// Encoding of a game state as a one-hot tensor.
pub trait SnakeEncoding {
    /// The state's invariant.
    spec fn encoding_ready(&self) -> bool;

    /// The number of bytes of an encoding.
    spec fn spec_encoded_len(&self) -> int;

    /// Writes the encoding into `out`, which must have exactly `encoded_len()` bytes.
    fn encode_onehot_chw(&self, out: &mut [u8])
        requires
            self.encoding_ready(),
            old(out)@.len() == self.spec_encoded_len(),
    ;

    /// The number of bytes of an encoding.
    fn encoded_len(&self) -> (n: usize)
        requires
            self.encoding_ready(),
        ensures
            n == self.spec_encoded_len(),
    ;
}

impl SnakeEncoding for SnakeStateLite {
    open spec fn encoding_ready(&self) -> bool {
        self.wf()
    }

    open spec fn spec_encoded_len(&self) -> int {
        OBS_CHANNELS as int * self.height as int * self.width as int
    }

    /// Planes, in order: empty cells, the head, the other segments, the food, and the
    /// cells that the head reaches through free cells (flood fill).
    fn encode_onehot_chw(&self, out: &mut [u8])
        ensures
            final(out)@ == observation(self.width as int, self.height as int, self.body@, self.food),
    {
        let obs = encode_observation(self.width, self.height, &self.body, self.food);
        let n = obs.len();
        proof {
            let w = self.width as int;
            let h = self.height as int;
            assert(OBS_CHANNELS as int * h * w == OBS_CHANNELS as int * w * h) by (nonlinear_arith);
        }
        let mut i: usize = 0;
        while i < n
            invariant
                n == obs@.len(),
                out@.len() == n,
                i <= n,
                forall|k: int| 0 <= k < i ==> out@[k] == obs@[k],
            decreases n - i,
        {
            out[i] = obs[i];
            i = i + 1;
        }
        assert(out@ =~= obs@);
    }

    fn encoded_len(&self) -> (n: usize) {
        proof {
            let w = self.width as int;
            let h = self.height as int;
            assert(OBS_CHANNELS as int * h <= OBS_CHANNELS as int * h * w && OBS_CHANNELS as int
                * h * w == OBS_CHANNELS as int * w * h) by (nonlinear_arith)
                requires
                    w >= 5,
                    h >= 5,
            ;
        }
        OBS_CHANNELS * self.height * self.width
    }
}

/// Index of plane `channel`, row `y`, column `x` in an encoding of a `width` x `height`
/// board.
pub fn chw_index(channel: usize, y: usize, x: usize, height: usize, width: usize) -> (i: usize)
    requires
        channel < OBS_CHANNELS,
        y < height,
        x < width,
        OBS_CHANNELS as int * height as int * width as int <= usize::MAX,
    ensures
        i == chw(channel as int, y as int, x as int, height as int, width as int),
        i < OBS_CHANNELS as int * height as int * width as int,
{
    proof {
        let c = channel as int;
        let h = height as int;
        let w = width as int;
        assert(c * h <= c * h + y && c * h + y < OBS_CHANNELS as int * h && OBS_CHANNELS as int
            * h <= OBS_CHANNELS as int * h * w && (c * h + y) * w <= (c * h + y) * w + x && (c
            * h + y) * w + x < OBS_CHANNELS as int * h * w) by (nonlinear_arith)
            requires
                0 <= c < OBS_CHANNELS as int,
                0 <= y < h,
                0 <= x < w,
        ;
    }
    (channel * height + y) * width + x
}

} // verus!

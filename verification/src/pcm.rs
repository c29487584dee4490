//! Decoded audio: a flat run of interleaved samples with its stream layout.

use vstd::prelude::*;

verus! {

/// The bit pattern of a silent sample.
pub const SILENCE: u32 = 0;

/// Sampling rate and channel count of a stream.
#[derive(Clone, Copy, Debug, PartialEq, Eq, Structural)]
pub struct Layout {
    pub rate: u32,
    pub channels: usize,
}

/// Whether `len` samples make a whole number of frames of `channels` samples.
pub open spec fn whole_frames(channels: usize, len: nat) -> bool {
    channels > 0 && len % (channels as nat) == 0
}

/// What a [`PcmBuffer`] holds.
pub struct PcmView {
    pub layout: Layout,
    pub samples: Seq<u32>,
}

impl PcmView {
    /// A buffer is never empty and always ends on a frame boundary.
    pub open spec fn wf(self) -> bool {
        self.samples.len() > 0 && whole_frames(self.layout.channels, self.samples.len())
    }
}

/// An immutable buffer of interleaved samples.
pub struct PcmBuffer {
    layout: Layout,
    samples: Vec<u32>,
}

impl View for PcmBuffer {
    type V = PcmView;

    closed spec fn view(&self) -> PcmView {
        PcmView { layout: self.layout, samples: self.samples@ }
    }
}

impl PcmBuffer {
    #[verifier::type_invariant]
    spec fn inv(self) -> bool {
        self@.wf()
    }

    /// Wraps `samples`, unless they are empty or do not fill whole frames.
    pub fn new(layout: Layout, samples: Vec<u32>) -> (r: Option<PcmBuffer>)
        ensures
            match r {
                Some(buffer) => buffer@ == (PcmView { layout, samples: samples@ }) && buffer@.wf(),
                None => !(PcmView { layout, samples: samples@ }).wf(),
            },
    {
        if layout.channels > 0 && samples.len() > 0 && samples.len() % layout.channels == 0 {
            Some(PcmBuffer { layout, samples })
        } else {
            None
        }
    }

    pub fn layout(&self) -> (layout: Layout)
        ensures
            layout == self@.layout,
    {
        self.layout
    }

    /// The samples, in playing order.
    pub fn samples(&self) -> (samples: &[u32])
        ensures
            samples@ == self@.samples,
            self@.wf(),
    {
        proof {
            use_type_invariant(self);
        }
        self.samples.as_slice()
    }

    /// The number of samples: positive, and a multiple of the channel count.
    pub fn len(&self) -> (n: usize)
        ensures
            n == self@.samples.len(),
            self@.wf(),
    {
        proof {
            use_type_invariant(self);
        }
        self.samples.len()
    }

    /// The number of frames.
    pub fn frames(&self) -> (n: usize)
        ensures
            n > 0,
            n * self@.layout.channels == self@.samples.len(),
    {
        proof {
            use_type_invariant(self);
            let len = self.samples@.len() as int;
            let c = self.layout.channels as int;
            assert(len == c * (len / c) + len % c) by (nonlinear_arith)
                requires
                    c > 0,
            ;
            assert(len / c > 0) by (nonlinear_arith)
                requires
                    c > 0,
                    len > 0,
                    len == c * (len / c),
            ;
            assert((len / c) * c == len) by (nonlinear_arith)
                requires
                    len == c * (len / c),
            ;
        }
        self.samples.len() / self.layout.channels
    }
}

impl Clone for PcmBuffer {
    fn clone(&self) -> (r: Self)
        ensures
            r@ == self@,
    {
        proof {
            use_type_invariant(self);
        }
        let samples = self.samples.clone();
        assert(samples@ =~= self.samples@);
        PcmBuffer { layout: self.layout, samples }
    }
}

} // verus!

//! Static configuration of a capture run: resolutions, codec, retry budget,
//! pool size.

use vstd::prelude::*;

verus! {

/// All configuration is fixed for the whole run.
#[derive(Clone, Copy)]
pub struct CaptureConfig {
    /// Resolution the renderer is asked to produce; a capture with any other
    /// dimensions is a fatal configuration mismatch.
    pub capture_width: u32,
    pub capture_height: u32,
    /// Resolution the output is downscaled to before encoding.
    pub output_width: u32,
    pub output_height: u32,
    /// `Some(q)`: encode a JPEG at quality `q`; `None`: encode a lossless PNG.
    pub jpeg_quality: Option<u8>,
    /// Capture attempts against one renderer instance before it is replaced.
    pub task_attempts: u32,
    /// Renderer replacements for one item before that item is given up.
    pub instance_restarts: u32,
    /// Number of parallel workers.
    pub pool_size: u32,
    /// Startup probes of the rendering server before the run is aborted.
    pub probe_attempts: u32,
}

/// The bytes of `".jpeg"`.
pub open spec fn jpeg_ext() -> Seq<u8> {
    seq![46u8, 106u8, 112u8, 101u8, 103u8]
}

/// The bytes of `".png"`.
pub open spec fn png_ext() -> Seq<u8> {
    seq![46u8, 112u8, 110u8, 103u8]
}

/// The output file extension the active codec produces.
pub open spec fn extension_spec(cfg: CaptureConfig) -> Seq<u8> {
    if cfg.jpeg_quality is Some {
        jpeg_ext()
    } else {
        png_ext()
    }
}

impl CaptureConfig {
    pub open spec fn wf(&self) -> bool {
        self.task_attempts >= 1 && self.pool_size >= 1 && self.probe_attempts >= 1
    }

    /// The stock configuration: capture at 1050x1050, publish 350x350 JPEGs
    /// at quality 75, four workers, three attempts per instance.
    pub fn standard() -> (c: CaptureConfig)
        ensures
            c.capture_width == 1050 && c.capture_height == 1050,
            c.output_width == 350 && c.output_height == 350,
            c.jpeg_quality == Some(75u8),
            c.task_attempts == 3,
            c.instance_restarts == 5,
            c.pool_size == 4,
            c.probe_attempts == 3,
            c.wf(),
    {
        CaptureConfig {
            capture_width: 1050,
            capture_height: 1050,
            output_width: 350,
            output_height: 350,
            jpeg_quality: Some(75),
            task_attempts: 3,
            instance_restarts: 5,
            pool_size: 4,
            probe_attempts: 3,
        }
    }

    pub fn extension(&self) -> (r: Vec<u8>)
        ensures
            r@ == extension_spec(*self),
            r@.len() >= 1,
            !crate::ids::is_dec_digit(r@[0]),
    {
        let mut r: Vec<u8> = Vec::new();
        r.push(46);
        if self.jpeg_quality.is_some() {
            r.push(106);
            r.push(112);
            r.push(101);
            r.push(103);
            proof {
                assert(r@ =~= jpeg_ext());
            }
        } else {
            r.push(112);
            r.push(110);
            r.push(103);
            proof {
                assert(r@ =~= png_ext());
            }
        }
        r
    }
}

} // verus!

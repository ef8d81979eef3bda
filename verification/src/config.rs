//! The configuration of a run, checked once before any image is touched.

use crate::filter::{default_extension_names, default_extensions};
use crate::normalize::{valid_canvas_size, DEFAULT_CANVAS_SIZE};
use crate::views::strings_view;
use vstd::prelude::*;

verus! {

/// The number of workers, unless configured otherwise.
pub const DEFAULT_MAX_WORKERS: usize = 10;

/// The largest distance at which two images still count as similar, unless
/// configured otherwise.
pub const DEFAULT_THRESHOLD: u32 = 10;

/// Why a configuration was turned down.
#[derive(Clone, Copy, Debug, PartialEq, Eq, Structural)]
pub enum ConfigurationError {
    /// The worker budget is not positive, or beyond what this machine counts.
    WorkerBudget,
    /// The threshold is negative, or beyond the range of a distance.
    Threshold,
    /// The canvas size is not positive, or the canvas would not fit in one
    /// buffer on this machine.
    CanvasSize,
}

/// A checked configuration: a positive worker budget, a threshold that is
/// not negative, a canvas that is not empty and fits in memory, and the
/// extensions that the walker takes for images.
#[derive(Debug)]
pub struct Config {
    max_workers: usize,
    threshold: u32,
    canvas_size: u32,
    extensions: Vec<String>,
}

/// What a `Config` stands for.
pub struct ConfigView {
    pub max_workers: int,
    pub threshold: int,
    pub canvas_size: int,
    pub extensions: Seq<Seq<char>>,
}

impl ConfigView {
    /// The worker budget is positive and the canvas size is valid.
    pub open spec fn wf(self) -> bool {
        &&& 0 < self.max_workers
        &&& 0 <= self.threshold
        &&& valid_canvas_size(self.canvas_size)
    }
}

/// The fault, if any, that `Config::new` finds in the three numbers. The
/// worker budget is looked at first, then the threshold, then the canvas
/// size.
pub open spec fn configuration_fault(max_workers: int, threshold: int, canvas_size: int) -> Option<
    ConfigurationError,
> {
    if max_workers <= 0 || max_workers > usize::MAX {
        Some(ConfigurationError::WorkerBudget)
    } else if threshold < 0 || threshold > u32::MAX {
        Some(ConfigurationError::Threshold)
    } else if !valid_canvas_size(canvas_size) {
        Some(ConfigurationError::CanvasSize)
    } else {
        None
    }
}

impl View for Config {
    type V = ConfigView;

    closed spec fn view(&self) -> ConfigView {
        ConfigView {
            max_workers: self.max_workers as int,
            threshold: self.threshold as int,
            canvas_size: self.canvas_size as int,
            extensions: strings_view(self.extensions@),
        }
    }
}

impl Config {
    #[verifier::type_invariant]
    spec fn inv(&self) -> bool {
        self@.wf()
    }

    /// Checks the three numbers and, if none is at fault, makes a
    /// configuration of them with the default extensions.
    pub fn new(max_workers: i64, threshold: i64, canvas_size: i64) -> (outcome: Result<
        Config,
        ConfigurationError,
    >)
        ensures
            match outcome {
                Ok(config) => {
                    &&& configuration_fault(max_workers as int, threshold as int, canvas_size as int)
                        is None
                    &&& config@.max_workers == max_workers
                    &&& config@.threshold == threshold
                    &&& config@.canvas_size == canvas_size
                    &&& config@.extensions == default_extension_names()
                    &&& config@.wf()
                },
                Err(e) => configuration_fault(
                    max_workers as int,
                    threshold as int,
                    canvas_size as int,
                ) == Some(e),
            },
    {
        if max_workers <= 0 || max_workers as u64 > usize::MAX as u64 {
            Err(ConfigurationError::WorkerBudget)
        } else if threshold < 0 || threshold > u32::MAX as i64 {
            Err(ConfigurationError::Threshold)
        } else if canvas_size <= 0 || canvas_size > u32::MAX as i64 {
            Err(ConfigurationError::CanvasSize)
        } else {
            let side = canvas_size as u64;
            assert(0 <= side * side <= 0xffff_ffff * 0xffff_ffff) by (nonlinear_arith)
                requires
                    0 <= side <= 0xffff_ffff,
            ;
            if side * side > isize::MAX as u64 {
                Err(ConfigurationError::CanvasSize)
            } else {
                Ok(
                    Config {
                        max_workers: max_workers as usize,
                        threshold: threshold as u32,
                        canvas_size: canvas_size as u32,
                        extensions: default_extensions(),
                    },
                )
            }
        }
    }

    /// The same configuration with another set of accepted extensions.
    pub fn with_extensions(self, extensions: Vec<String>) -> (config: Config)
        ensures
            config@ == (ConfigView {
                extensions: strings_view(extensions@),
                ..self@
            }),
    {
        proof {
            use_type_invariant(&self);
        }
        Config {
            max_workers: self.max_workers,
            threshold: self.threshold,
            canvas_size: self.canvas_size,
            extensions,
        }
    }

    /// The largest number of images worked on at the same time.
    pub fn max_workers(&self) -> (n: usize)
        ensures
            n == self@.max_workers,
            n > 0,
    {
        proof {
            use_type_invariant(self);
        }
        self.max_workers
    }

    /// The largest distance at which two images still count as similar.
    pub fn threshold(&self) -> (t: u32)
        ensures
            t == self@.threshold,
    {
        self.threshold
    }

    /// The side of the canvas that images are normalized to.
    pub fn canvas_size(&self) -> (side: u32)
        ensures
            side == self@.canvas_size,
            valid_canvas_size(side as int),
    {
        proof {
            use_type_invariant(self);
        }
        self.canvas_size
    }

    /// The extensions that the walker takes for images.
    pub fn extensions(&self) -> (extensions: &Vec<String>)
        ensures
            strings_view(extensions@) == self@.extensions,
    {
        &self.extensions
    }
}

impl Default for Config {
    /// Ten workers, a threshold of 10, a canvas of 64 by 64 pixels, and the
    /// default extensions.
    fn default() -> (config: Config)
        ensures
            config@.max_workers == DEFAULT_MAX_WORKERS,
            config@.threshold == DEFAULT_THRESHOLD,
            config@.canvas_size == DEFAULT_CANVAS_SIZE,
            config@.extensions == default_extension_names(),
    {
        assert(valid_canvas_size(64)) by {
            assert(64 * 64 <= isize::MAX);
        }
        Config {
            max_workers: DEFAULT_MAX_WORKERS,
            threshold: DEFAULT_THRESHOLD,
            canvas_size: DEFAULT_CANVAS_SIZE,
            extensions: default_extensions(),
        }
    }
}

} // verus!

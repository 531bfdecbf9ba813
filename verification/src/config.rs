//! The parts of the configuration that the library reads: where the relay
//! listens, and what is traced.

use vstd::prelude::*;

use crate::tracing::{is_effective_level, Level, TracingConfigExt};

verus! {

/// Where the relay listens for connections.
#[derive(Clone, Debug, Default, Eq, PartialEq)]
pub struct Mps {
    /// The mps IP address to listen for connections on
    ip: String,
    /// The mps port
    port: u16,
}

/// An address as a mathematical value.
pub struct MpsView {
    pub ip: Seq<char>,
    pub port: u16,
}

impl View for Mps {
    type V = MpsView;

    closed spec fn view(&self) -> MpsView {
        MpsView { ip: self.ip@, port: self.port }
    }
}

impl Mps {
    /// The address made of an IP address and a port.
    pub fn new(ip: String, port: u16) -> (r: Self)
        ensures
            r@ == (MpsView { ip: ip@, port }),
    {
        Mps { ip, port }
    }

    /// The mps IP address to listen for connections on
    pub fn ip(&self) -> (r: &String)
        ensures
            r@ == self@.ip,
    {
        &self.ip
    }

    /// The mps port
    pub fn port(&self) -> (r: u16)
        ensures
            r == self@.port,
    {
        self.port
    }
}

/// What a layer adds to each traced event.
#[derive(Clone, Debug, Default, Eq, PartialEq)]
pub struct Layer {
    /// Should we trace the event target
    with_target: bool,
    /// Should we trace the thread id
    with_thread_ids: bool,
    /// Should we trace the thread names
    with_thread_names: bool,
    /// Should we trace the line numbers
    with_line_number: bool,
    /// Should we trace the level
    with_level: bool,
    /// Additional tracing directives
    directives: Option<String>,
}

/// A layer as a mathematical value.
pub struct LayerView {
    pub with_target: bool,
    pub with_thread_ids: bool,
    pub with_thread_names: bool,
    pub with_line_number: bool,
    pub with_level: bool,
    pub directives: Option<Seq<char>>,
}

impl View for Layer {
    type V = LayerView;

    closed spec fn view(&self) -> LayerView {
        LayerView {
            with_target: self.with_target,
            with_thread_ids: self.with_thread_ids,
            with_thread_names: self.with_thread_names,
            with_line_number: self.with_line_number,
            with_level: self.with_level,
            directives: match self.directives {
                Some(text) => Some(text@),
                None => None,
            },
        }
    }
}

impl Layer {
    /// The layer with the switches and directives given.
    pub fn new(
        with_target: bool,
        with_thread_ids: bool,
        with_thread_names: bool,
        with_line_number: bool,
        with_level: bool,
        directives: Option<String>,
    ) -> (r: Self)
        ensures
            r@.with_target == with_target,
            r@.with_thread_ids == with_thread_ids,
            r@.with_thread_names == with_thread_names,
            r@.with_line_number == with_line_number,
            r@.with_level == with_level,
            r@.directives == match directives {
                Some(text) => Some(text@),
                None => None,
            },
    {
        Layer {
            with_target,
            with_thread_ids,
            with_thread_names,
            with_line_number,
            with_level,
            directives,
        }
    }

    /// Should we trace the event target
    pub fn with_target(&self) -> (r: bool)
        ensures
            r == self@.with_target,
    {
        self.with_target
    }

    /// Should we trace the thread id
    pub fn with_thread_ids(&self) -> (r: bool)
        ensures
            r == self@.with_thread_ids,
    {
        self.with_thread_ids
    }

    /// Should we trace the thread names
    pub fn with_thread_names(&self) -> (r: bool)
        ensures
            r == self@.with_thread_names,
    {
        self.with_thread_names
    }

    /// Should we trace the line numbers
    pub fn with_line_number(&self) -> (r: bool)
        ensures
            r == self@.with_line_number,
    {
        self.with_line_number
    }

    /// Should we trace the level
    pub fn with_level(&self) -> (r: bool)
        ensures
            r == self@.with_level,
    {
        self.with_level
    }

    /// Additional tracing directives
    pub fn directives(&self) -> (r: &Option<String>)
        ensures
            match self@.directives {
                Some(text) => *r matches Some(held) && held@ == text,
                None => *r is None,
            },
    {
        &self.directives
    }
}

/// `tracing_subscriber_init::get_effective_level`, with the level it gives
/// told apart into the library's own. That crate counts in one of two ways,
/// and which one depends on how it was built: with debug assertions it counts
/// both ways from the level of information, without them it counts the
/// "louder" steps up from errors only. Believed of it: the level is the one
/// that one of the two ways gives.
#[verifier::external_body]
fn effective_level(quiet: u8, verbose: u8) -> (level: Level)
    ensures
        is_effective_level(level, quiet, verbose),
{
    match tracing_subscriber_init::get_effective_level(quiet, verbose) {
        tracing::Level::TRACE => Level::Trace,
        tracing::Level::DEBUG => Level::Debug,
        tracing::Level::INFO => Level::Info,
        tracing::Level::WARN => Level::Warn,
        tracing::Level::ERROR => Level::Error,
    }
}

/// The configuration of the layer that traces to a file.
#[derive(Clone, Debug, Default, Eq, PartialEq)]
pub struct FileLayer {
    /// quiet level
    quiet: u8,
    /// verbose level
    verbose: u8,
    /// layer configuration
    layer: Layer,
}

/// A file layer as a mathematical value.
pub struct FileLayerView {
    pub quiet: u8,
    pub verbose: u8,
    pub layer: LayerView,
}

impl View for FileLayer {
    type V = FileLayerView;

    closed spec fn view(&self) -> FileLayerView {
        FileLayerView { quiet: self.quiet, verbose: self.verbose, layer: self.layer@ }
    }
}

impl FileLayer {
    /// The file layer with the counts and the layer given.
    pub fn new(quiet: u8, verbose: u8, layer: Layer) -> (r: Self)
        ensures
            r@ == (FileLayerView { quiet, verbose, layer: layer@ }),
    {
        FileLayer { quiet, verbose, layer }
    }

    /// How often less output was asked for.
    pub fn quiet(&self) -> (r: u8)
        ensures
            r == self@.quiet,
    {
        self.quiet
    }

    /// How often more output was asked for.
    pub fn verbose(&self) -> (r: u8)
        ensures
            r == self@.verbose,
    {
        self.verbose
    }

    /// A file never gets colour codes.
    pub fn with_ansi(&self) -> (r: bool)
        ensures
            !r,
    {
        false
    }

    /// Should we trace the event target
    pub fn with_target(&self) -> (r: bool)
        ensures
            r == self@.layer.with_target,
    {
        self.layer.with_target()
    }

    /// Should we trace the thread id
    pub fn with_thread_ids(&self) -> (r: bool)
        ensures
            r == self@.layer.with_thread_ids,
    {
        self.layer.with_thread_ids()
    }

    /// Should we trace the thread names
    pub fn with_thread_names(&self) -> (r: bool)
        ensures
            r == self@.layer.with_thread_names,
    {
        self.layer.with_thread_names()
    }

    /// Should we trace the line numbers
    pub fn with_line_number(&self) -> (r: bool)
        ensures
            r == self@.layer.with_line_number,
    {
        self.layer.with_line_number()
    }

    /// Should we trace the level
    pub fn with_level(&self) -> (r: bool)
        ensures
            r == self@.layer.with_level,
    {
        self.layer.with_level()
    }
}

impl TracingConfigExt for FileLayer {
    open spec fn extra_directives(&self) -> Option<Seq<char>> {
        self@.layer.directives
    }

    /// A file layer never traces to standard output.
    fn enable_stdout(&self) -> (r: bool)
        ensures
            !r,
    {
        false
    }

    /// The additional directives of the layer.
    fn directives(&self) -> (r: Option<&String>) {
        self.layer.directives().as_ref()
    }

    /// The level that the layer's two counts give, in one of the two ways
    /// of counting.
    fn level(&self) -> (r: Level)
        ensures
            is_effective_level(r, self@.quiet, self@.verbose),
    {
        effective_level(self.quiet, self.verbose)
    }
}

/// The configuration of tracing: one layer to standard output, one to a
/// file.
#[derive(Clone, Debug, Default, Eq, PartialEq)]
pub struct Tracing {
    /// stdout layer configuration
    stdout: Layer,
    /// file layer configuration
    file: FileLayer,
}

/// A tracing configuration as a mathematical value.
pub struct TracingView {
    pub stdout: LayerView,
    pub file: FileLayerView,
}

impl View for Tracing {
    type V = TracingView;

    closed spec fn view(&self) -> TracingView {
        TracingView { stdout: self.stdout@, file: self.file@ }
    }
}

impl Tracing {
    /// The configuration made of the two layers given.
    pub fn new(stdout: Layer, file: FileLayer) -> (r: Self)
        ensures
            r@ == (TracingView { stdout: stdout@, file: file@ }),
    {
        Tracing { stdout, file }
    }

    /// stdout layer configuration
    pub fn stdout(&self) -> (r: &Layer)
        ensures
            r@ == self@.stdout,
    {
        &self.stdout
    }

    /// file layer configuration
    pub fn file(&self) -> (r: &FileLayer)
        ensures
            r@ == self@.file,
    {
        &self.file
    }
}

} // verus!

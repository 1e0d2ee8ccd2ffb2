use vstd::prelude::*;

verus! {

/// The destinations of the two standard streams, as descriptors.
#[derive(Clone, Copy, Debug, PartialEq, Eq, Structural)]
pub struct Streams {
    pub out: i32,
    pub err: i32,
}

/// The process-wide output capture: where the standard streams point now, and,
/// while a capture is held, where they pointed before it. At most one capture
/// is held at a time.
pub struct OutputCapture {
    current: Streams,
    saved: Option<Streams>,
}

/// The state after a capture into `log` is taken.
pub open spec fn acquired(s: (Streams, Option<Streams>), log: i32) -> (Streams, Option<Streams>) {
    (Streams { out: log, err: log }, Some(s.0))
}

/// The state after the held capture is given back.
pub open spec fn released(s: (Streams, Option<Streams>)) -> (Streams, Option<Streams>) {
    match s.1 {
        Some(prior) => (prior, None),
        None => s,
    }
}

impl View for OutputCapture {
    type V = (Streams, Option<Streams>);

    closed spec fn view(&self) -> (Streams, Option<Streams>) {
        (self.current, self.saved)
    }
}

impl OutputCapture {
    /// No capture held; the streams point at `initial`.
    pub fn new(initial: Streams) -> (r: OutputCapture)
        ensures
            r@ == (initial, None::<Streams>),
    {
        OutputCapture { current: initial, saved: None }
    }

    /// Whether a capture is held.
    pub fn is_active(&self) -> (r: bool)
        ensures
            r == self@.1 is Some,
    {
        self.saved.is_some()
    }

    /// Where the streams point now.
    pub fn destinations(&self) -> (r: Streams)
        ensures
            r == self@.0,
    {
        self.current
    }

    /// Takes the capture: both streams go to `log`, and their prior destinations
    /// are kept. Returns the destinations to install.
    pub fn acquire(&mut self, log: i32) -> (r: Streams)
        requires
            old(self)@.1 is None,
        ensures
            final(self)@ == acquired(old(self)@, log),
            r == final(self)@.0,
    {
        let prior = self.current;
        self.saved = Some(prior);
        self.current = Streams { out: log, err: log };
        self.current
    }

    /// Gives the capture back: both streams return to where they pointed before
    /// it was taken. Returns the destinations to install.
    pub fn release(&mut self) -> (r: Streams)
        requires
            old(self)@.1 is Some,
        ensures
            final(self)@ == released(old(self)@),
            final(self)@.1 is None,
            r == final(self)@.0,
    {
        match self.saved {
            Some(prior) => {
                self.current = prior;
            },
            None => {},
        }
        self.saved = None;
        self.current
    }
}

/// Taking a capture and giving it back, whatever happened while it was held,
/// leaves the streams where they pointed before, with no capture held.
pub proof fn lemma_release_restores(s: (Streams, Option<Streams>), log: i32)
    requires
        s.1 is None,
    ensures
        released(acquired(s, log)) == s,
{
}

} // verus!

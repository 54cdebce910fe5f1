//! The capability set every renderable unit implements: render a state
//! snapshot into styled text, and accept a click at an offset within the
//! widget's own span.

use vstd::prelude::*;
use crate::config::ZellijState;

verus! {

/// One independently configured, stateless-at-render-time unit producing one
/// contribution to the composed status line.
pub trait Widget {
    /// The text this widget reads for snapshot `state` at the wall-clock
    /// instant `ts` (seconds since the Unix epoch).
    spec fn spec_render(&self, state: &ZellijState, ts: int) -> Seq<char>;

    /// Renders the fully styled text for `state`, reading the clock at some
    /// instant where the widget is clock-dependent. Never fails: malformed
    /// configuration has already degraded to defaults at construction.
    fn process(&self, name: &str, state: &ZellijState) -> (r: String)
        ensures
            exists|ts: int| r@ == self.spec_render(state, ts),
    ;

    /// Accepts a click at horizontal offset `pos` within this widget's own
    /// rendered span; a no-op unless a widget chooses otherwise.
    fn process_click(&self, state: &ZellijState, pos: usize) {
    }
}

} // verus!

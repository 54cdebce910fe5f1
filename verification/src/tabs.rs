//! The tabs widget: one rendered segment per tab of the snapshot, the
//! active tab under its own template and style.

use vstd::prelude::*;
use vstd::string::*;
use vstd::seq_lib::*;
use crate::config::{spec_lookup_or, ConfigMap, Tab, ZellijState};
use crate::render::{spec_from_format_string, FormattedPart};
use crate::style::spec_styled;
use crate::text::{lemma_replace_absent, replace_all, spec_contains, spec_replace};
use crate::widget::Widget;

verus! {

/// Renders every tab of the snapshot, selecting between an "active" and a
/// "normal" template.
pub struct TabsWidget {
    pub normal_tab_format: FormattedPart,
    pub active_tab_format: FormattedPart,
}

/// The segment one tab renders to: the template selected by the tab's active
/// flag, its `{name}` placeholder substituted once, under that template's
/// style.
pub open spec fn spec_tab_segment(w: TabsWidget, tab: Tab) -> Seq<char> {
    let f = if tab.active {
        w.active_tab_format@
    } else {
        w.normal_tab_format@
    };
    spec_styled(f.style, spec_replace(f.content, "{name}"@, tab.name@))
}

/// The segments of all tabs, one per tab, in snapshot order.
pub open spec fn spec_tab_segments(w: TabsWidget, tabs: Seq<Tab>) -> Seq<Seq<char>> {
    tabs.map_values(|t: Tab| spec_tab_segment(w, t))
}

/// The full rendering: the segments concatenated in snapshot order; an empty
/// tab sequence yields an empty text.
pub open spec fn spec_tabs_render(w: TabsWidget, tabs: Seq<Tab>) -> Seq<char>
    decreases tabs.len(),
{
    if tabs.len() == 0 {
        Seq::<char>::empty()
    } else {
        spec_tab_segment(w, tabs[0]) + spec_tabs_render(w, tabs.skip(1))
    }
}

impl TabsWidget {
    /// Builds the widget from configuration: `tab_normal` gives the normal
    /// template, `tab_active` the active one, defaulting to the normal
    /// template where no distinct active style is configured.
    pub fn new(config: &ConfigMap) -> (w: TabsWidget)
        ensures
            w.normal_tab_format@ == spec_from_format_string(
                spec_lookup_or(config@, "tab_normal"@, ""@),
            ),
            w.active_tab_format@ == spec_from_format_string(
                spec_lookup_or(config@, "tab_active"@, spec_lookup_or(config@, "tab_normal"@, ""@)),
            ),
    {
        let normal_string = config.get_or("tab_normal", "");
        let active_string = config.get_or("tab_active", normal_string.as_str());
        TabsWidget {
            normal_tab_format: FormattedPart::from_format_string(normal_string.as_str()),
            active_tab_format: FormattedPart::from_format_string(active_string.as_str()),
        }
    }

    fn select_format<'a>(&'a self, info: &Tab) -> (r: &'a FormattedPart)
        ensures
            *r == (if info.active {
                self.active_tab_format
            } else {
                self.normal_tab_format
            }),
    {
        if info.active {
            &self.active_tab_format
        } else {
            &self.normal_tab_format
        }
    }
}

impl Widget for TabsWidget {
    open spec fn spec_render(&self, state: &ZellijState, ts: int) -> Seq<char> {
        spec_tabs_render(*self, state.tabs@)
    }

    fn process(&self, _name: &str, state: &ZellijState) -> (r: String) {
        let mut out = String::new();
        let n = state.tabs.len();
        let mut i: usize = 0;
        proof {
            assert(state.tabs@.skip(0) =~= state.tabs@);
            assert(out@ + spec_tabs_render(*self, state.tabs@) =~= spec_tabs_render(
                *self,
                state.tabs@,
            ));
        }
        while i < n
            invariant
                n == state.tabs@.len(),
                0 <= i <= n,
                spec_tabs_render(*self, state.tabs@) == out@ + spec_tabs_render(
                    *self,
                    state.tabs@.skip(i as int),
                ),
            decreases n - i,
        {
            let tab = &state.tabs[i];
            let formatter = self.select_format(tab);
            let content = replace_all(formatter.content.as_str(), "{name}", tab.name.as_str());
            let segment = formatter.format_string(content.as_str());
            proof {
                let rest = state.tabs@.skip(i as int);
                assert(rest[0] == state.tabs@[i as int]);
                assert(rest.skip(1) =~= state.tabs@.skip(i + 1));
                assert(segment@ == spec_tab_segment(*self, state.tabs@[i as int]));
                assert(out@ + (segment@ + spec_tabs_render(*self, state.tabs@.skip(i + 1))) =~= (
                out@ + segment@) + spec_tabs_render(*self, state.tabs@.skip(i + 1)));
            }
            out.append(segment.as_str());
            i = i + 1;
        }
        proof {
            assert(state.tabs@.skip(n as int) =~= Seq::<Tab>::empty());
            assert(out@ + spec_tabs_render(*self, state.tabs@.skip(n as int)) =~= out@);
            assert(out@ == self.spec_render(state, 0));
        }
        out
    }
}

/// Each tab yields exactly one rendered segment, in snapshot order, and
/// segment `i` is rendered from the active template iff tab `i`'s active flag
/// is set; the full rendering is the segments' concatenation.
pub proof fn lemma_tabs_segments(w: TabsWidget, tabs: Seq<Tab>)
    ensures
        spec_tab_segments(w, tabs).len() == tabs.len(),
        forall|i: int|
            0 <= i < tabs.len() ==> spec_tab_segments(w, tabs)[i] == (if tabs[i].active {
                spec_styled(
                    w.active_tab_format@.style,
                    spec_replace(w.active_tab_format@.content, "{name}"@, tabs[i].name@),
                )
            } else {
                spec_styled(
                    w.normal_tab_format@.style,
                    spec_replace(w.normal_tab_format@.content, "{name}"@, tabs[i].name@),
                )
            }),
        spec_tabs_render(w, tabs) == spec_tab_segments(w, tabs).flatten(),
    decreases tabs.len(),
{
    if tabs.len() == 0 {
        assert(spec_tab_segments(w, tabs) =~= Seq::<Seq<char>>::empty());
        assert(spec_tab_segments(w, tabs).flatten() =~= Seq::<char>::empty());
    } else {
        lemma_tabs_segments(w, tabs.skip(1));
        assert(spec_tab_segments(w, tabs.skip(1)) =~= spec_tab_segments(w, tabs).drop_first());
        assert(spec_tab_segments(w, tabs).flatten() == spec_tab_segments(w, tabs)[0]
            + spec_tab_segments(w, tabs).drop_first().flatten());
    }
}

/// Rendering is deterministic in the widget and the snapshot: two renders
/// from unchanged configuration and an unchanged tab sequence read the same
/// text.
pub proof fn lemma_tabs_render_deterministic(
    w: TabsWidget,
    tabs: Seq<Tab>,
    r1: Seq<char>,
    r2: Seq<char>,
)
    requires
        r1 == spec_tabs_render(w, tabs),
        r2 == spec_tabs_render(w, tabs),
    ensures
        r1 == r2,
{
}

/// Templates without the `{name}` placeholder render every tab as the
/// literal, styled template content, whatever the snapshot holds.
pub proof fn lemma_tabs_literal_templates(w: TabsWidget, tabs: Seq<Tab>)
    requires
        !spec_contains(w.normal_tab_format@.content, "{name}"@),
        !spec_contains(w.active_tab_format@.content, "{name}"@),
    ensures
        forall|i: int|
            0 <= i < tabs.len() ==> spec_tab_segments(w, tabs)[i] == (if tabs[i].active {
                spec_styled(w.active_tab_format@.style, w.active_tab_format@.content)
            } else {
                spec_styled(w.normal_tab_format@.style, w.normal_tab_format@.content)
            }),
{
    assert forall|i: int| 0 <= i < tabs.len() implies spec_tab_segments(w, tabs)[i] == (
    if tabs[i].active {
        spec_styled(w.active_tab_format@.style, w.active_tab_format@.content)
    } else {
        spec_styled(w.normal_tab_format@.style, w.normal_tab_format@.content)
    }) by {
        lemma_replace_absent(w.normal_tab_format@.content, "{name}"@, tabs[i].name@);
        lemma_replace_absent(w.active_tab_format@.content, "{name}"@, tabs[i].name@);
    }
}

} // verus!

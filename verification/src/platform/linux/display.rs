//! The displays of a Wayland compositor.
use vstd::prelude::*;
use vstd::string::*;

verus! {

/// A mode that an output can be driven in.
#[derive(Debug, Clone, Copy)]
pub struct OutputMode {
    pub dimensions: (i32, i32),
    pub refresh_rate: i32,
    pub current: bool,
}

/// What a compositor says of an output.
pub struct OutputInfo {
    pub name: Option<String>,
    pub location: (i32, i32),
    pub logical_size: Option<(i32, i32)>,
    pub modes: Vec<OutputMode>,
}

/// A display.
#[derive(Debug)]
pub struct WaylandDisplayInfo {
    pub name: String,
    pub x: i32,
    pub y: i32,
    pub width: i32,
    pub height: i32,
    pub logical_size: Option<(i32, i32)>,
    pub refresh_rate: i32,
}

/// What a `WaylandDisplayInfo` says.
pub struct DisplayView {
    pub name: Seq<char>,
    pub x: i32,
    pub y: i32,
    pub width: i32,
    pub height: i32,
    pub logical_size: Option<(i32, i32)>,
    pub refresh_rate: i32,
}

impl View for WaylandDisplayInfo {
    type V = DisplayView;

    open spec fn view(&self) -> DisplayView {
        DisplayView {
            name: self.name@,
            x: self.x,
            y: self.y,
            width: self.width,
            height: self.height,
            logical_size: self.logical_size,
            refresh_rate: self.refresh_rate,
        }
    }
}

/// What some displays say.
pub open spec fn displays_view(displays: Seq<WaylandDisplayInfo>) -> Seq<DisplayView> {
    displays.map_values(|d: WaylandDisplayInfo| d@)
}

/// The first current mode.
pub open spec fn current_mode(modes: Seq<OutputMode>) -> Option<OutputMode>
    decreases modes.len(),
{
    if modes.len() == 0 {
        None
    } else if modes[0].current {
        Some(modes[0])
    } else {
        current_mode(modes.drop_first())
    }
}

/// The display of an output, in its current mode. An output without one is no display.
pub open spec fn display_of(output: OutputInfo) -> Option<DisplayView> {
    match current_mode(output.modes@) {
        Some(mode) => Some(
            DisplayView {
                name: match output.name {
                    Some(name) => name@,
                    None => seq![],
                },
                x: output.location.0,
                y: output.location.1,
                width: mode.dimensions.0,
                height: mode.dimensions.1,
                logical_size: output.logical_size,
                refresh_rate: mode.refresh_rate,
            },
        ),
        None => None,
    }
}

/// The displays of some outputs, in their order.
pub open spec fn displays_of(outputs: Seq<OutputInfo>) -> Seq<DisplayView>
    decreases outputs.len(),
{
    if outputs.len() == 0 {
        seq![]
    } else {
        let before = displays_of(outputs.drop_last());
        match display_of(outputs.last()) {
            Some(display) => before.push(display),
            None => before,
        }
    }
}

/// The first current mode.
fn find_current(modes: &[OutputMode]) -> (mode: Option<OutputMode>)
    ensures
        mode == current_mode(modes@),
{
    let mut i: usize = 0;
    assert(modes@.skip(0) =~= modes@);
    while i < modes.len()
        invariant
            i <= modes@.len(),
            current_mode(modes@) == current_mode(modes@.skip(i as int)),
        decreases modes@.len() - i,
    {
        if modes[i].current {
            return Some(modes[i]);
        }
        assert(modes@.skip(i as int).drop_first() =~= modes@.skip(i + 1));
        i += 1;
    }
    None
}

/// The displays that are connected, by what the compositor says of its outputs.
pub fn get_wayland_displays(outputs: &[OutputInfo]) -> (displays: Vec<WaylandDisplayInfo>)
    ensures
        displays_view(displays@) == displays_of(outputs@),
{
    let mut displays: Vec<WaylandDisplayInfo> = Vec::new();
    let mut i: usize = 0;
    while i < outputs.len()
        invariant
            i <= outputs@.len(),
            displays_view(displays@) == displays_of(outputs@.take(i as int)),
        decreases outputs@.len() - i,
    {
        let output = &outputs[i];
        let ghost before = displays@;
        if let Some(mode) = find_current(output.modes.as_slice()) {
            let name = match &output.name {
                Some(name) => name.clone(),
                None => String::new(),
            };
            let display = WaylandDisplayInfo {
                name,
                x: output.location.0,
                y: output.location.1,
                width: mode.dimensions.0,
                height: mode.dimensions.1,
                logical_size: output.logical_size,
                refresh_rate: mode.refresh_rate,
            };
            displays.push(display);
            assert(displays_view(displays@) =~= displays_view(before).push(display@));
        }
        i += 1;
        assert(outputs@.take(i as int).drop_last() =~= outputs@.take(i - 1));
    }
    assert(outputs@.take(i as int) =~= outputs@);
    displays
}

/// The first mode that is current is the current one; where none is, there is no current mode.
pub proof fn law_first_current_mode_counts(modes: Seq<OutputMode>, at: int)
    requires
        0 <= at <= modes.len(),
        forall|j: int| 0 <= j < at ==> !(#[trigger] modes[j]).current,
        at < modes.len() ==> modes[at].current,
    ensures
        at < modes.len() ==> current_mode(modes) == Some(modes[at]),
        at == modes.len() ==> current_mode(modes) is None,
    decreases at,
{
    if at > 0 {
        let rest = modes.drop_first();
        assert(!modes[0].current);
        assert forall|j: int| 0 <= j < at - 1 implies !(#[trigger] rest[j]).current by {
            assert(rest[j] == modes[j + 1]);
        }
        law_first_current_mode_counts(rest, at - 1);
    }
}

/// An output with a current mode is one display, with the output's place and name and the mode's
/// size and rate; an output without one is none. The displays of more outputs are those of each, in
/// the order of the outputs.
pub proof fn law_each_output_is_a_display_or_none(
    before: Seq<OutputInfo>,
    output: OutputInfo,
    at: int,
)
    requires
        0 <= at <= output.modes@.len(),
        forall|j: int| 0 <= j < at ==> !(#[trigger] output.modes@[j]).current,
        at < output.modes@.len() ==> output.modes@[at].current,
    ensures
        displays_of(Seq::<OutputInfo>::empty()).len() == 0,
        at == output.modes@.len() ==> displays_of(before.push(output)) == displays_of(before),
        at < output.modes@.len() ==> {
            let all = displays_of(before.push(output));
            let display = all.last();
            &&& all.len() == displays_of(before).len() + 1
            &&& all.drop_last() == displays_of(before)
            &&& output.name matches Some(name) ==> display.name == name@
            &&& output.name is None ==> display.name.len() == 0
            &&& (display.x, display.y) == output.location
            &&& (display.width, display.height) == output.modes@[at].dimensions
            &&& display.logical_size == output.logical_size
            &&& display.refresh_rate == output.modes@[at].refresh_rate
        },
{
    law_first_current_mode_counts(output.modes@, at);
    assert(before.push(output).drop_last() =~= before);
    if at < output.modes@.len() {
        assert(displays_of(before.push(output)).drop_last() =~= displays_of(before));
    }
}

} // verus!

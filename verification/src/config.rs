//! The configuration: global settings, settings for any output, settings
//! per output, and how the outputs are meant to rotate together.

use crate::error::{ConfigError, SwwwsError};
use crate::parse::{find_line_with, first_line_with, has_infix, range_contains};
use crate::queue::Sorting;
use crate::text::{
    clone_texts, decimal, decimal_text, first_index_of, index_of_text, join, join3,
    lemma_first_index_of, owned, same_text, texts,
};
use crate::time::{Span, NANOS_PER_MILLI, NANOS_PER_SEC};
use vstd::prelude::*;

verus! {

/// The texts of each group of a list of groups.
pub open spec fn group_texts(groups: Seq<Vec<String>>) -> Seq<Seq<Seq<char>>> {
    groups.map_values(|g: Vec<String>| texts(g@))
}

/// A copy of each group of the list.
pub fn clone_groups(groups: &Vec<Vec<String>>) -> (r: Vec<Vec<String>>)
    ensures
        group_texts(r@) == group_texts(groups@),
{
    let mut out: Vec<Vec<String>> = Vec::new();
    let mut i: usize = 0;
    while i < groups.len()
        invariant
            i <= groups@.len(),
            group_texts(out@) == group_texts(groups@).take(i as int),
        decreases groups@.len() - i,
    {
        let ghost o = out@;
        let g = clone_texts(&groups[i]);
        out.push(g);
        assert(group_texts(out@) =~= group_texts(o).push(texts(groups@[i as int]@)));
        i += 1;
        assert(group_texts(out@) =~= group_texts(groups@).take(i as int));
    }
    assert(group_texts(out@) =~= group_texts(groups@));
    out
}

/// How the outputs rotate together.
#[derive(Debug)]
pub enum MonitorBehavior {
    /// Each output has its own queue and timer.
    Independent,
    /// All outputs show the same image at the same time.
    Synchronized,
    /// The outputs of a group share a queue and a timer.
    Grouped(Vec<Vec<String>>),
}

/// A monitor behavior, its groups as texts.
pub enum BehaviorView {
    Independent,
    Synchronized,
    Grouped(Seq<Seq<Seq<char>>>),
}

impl View for MonitorBehavior {
    type V = BehaviorView;

    open spec fn view(&self) -> BehaviorView {
        match self {
            MonitorBehavior::Independent => BehaviorView::Independent,
            MonitorBehavior::Synchronized => BehaviorView::Synchronized,
            MonitorBehavior::Grouped(groups) => BehaviorView::Grouped(group_texts(groups@)),
        }
    }
}

impl Clone for MonitorBehavior {
    fn clone(&self) -> (r: MonitorBehavior)
        ensures
            r@ == self@,
    {
        match self {
            MonitorBehavior::Independent => MonitorBehavior::Independent,
            MonitorBehavior::Synchronized => MonitorBehavior::Synchronized,
            MonitorBehavior::Grouped(groups) => MonitorBehavior::Grouped(clone_groups(groups)),
        }
    }
}

impl Default for MonitorBehavior {
    fn default() -> (r: MonitorBehavior)
        ensures
            r@ == BehaviorView::Independent,
    {
        MonitorBehavior::Independent
    }
}

impl BehaviorView {
    /// Whether the two behaviors are of the same kind, whatever their groups.
    pub open spec fn same_kind(self, other: BehaviorView) -> bool {
        match (self, other) {
            (BehaviorView::Independent, BehaviorView::Independent) => true,
            (BehaviorView::Synchronized, BehaviorView::Synchronized) => true,
            (BehaviorView::Grouped(_), BehaviorView::Grouped(_)) => true,
            _ => false,
        }
    }
}

/// The angle of a transition: its decimal text, and whether it lies within
/// the circle, from 0 to 360 degrees.
#[derive(Debug)]
pub struct Angle {
    pub text: String,
    pub in_range: bool,
}

/// An angle, its text as characters.
pub struct AngleView {
    pub text: Seq<char>,
    pub in_range: bool,
}

impl View for Angle {
    type V = AngleView;

    open spec fn view(&self) -> AngleView {
        AngleView { text: self.text@, in_range: self.in_range }
    }
}

impl Clone for Angle {
    fn clone(&self) -> (r: Angle)
        ensures
            r@ == self@,
    {
        Angle { text: self.text.clone(), in_range: self.in_range }
    }
}

/// The settings that apply everywhere unless an output says otherwise.
#[derive(Debug)]
pub struct GlobalConfig {
    pub duration: Span,
    pub queue_size: usize,
    pub sorting: Sorting,
    pub transition_type: String,
    pub transition_step: u32,
    pub transition_angle: Angle,
    pub transition_pos: String,
    pub transition_bezier: String,
    pub transition_duration: Span,
    pub resize: String,
    pub fill_color: String,
    pub filter: String,
    pub invert_y: bool,
    pub transition_wave: String,
}

/// The settings of one output.
#[derive(Debug)]
pub struct OutputConfig {
    pub path: Option<String>,
    pub duration: Span,
    pub queue_size: usize,
    pub sorting: Sorting,
    pub transition_type: String,
    pub transition_step: u32,
    pub transition_angle: Angle,
    pub transition_pos: String,
    pub transition_bezier: String,
    pub transition_duration: Span,
    pub resize: String,
    pub fill_color: String,
    pub filter: String,
    pub invert_y: bool,
    pub transition_wave: String,
}

/// The settings that a global section and an output section both have.
pub struct SettingsView {
    pub duration: Span,
    pub queue_size: usize,
    pub sorting: Sorting,
    pub transition_type: Seq<char>,
    pub transition_step: u32,
    pub transition_angle: AngleView,
    pub transition_pos: Seq<char>,
    pub transition_bezier: Seq<char>,
    pub transition_duration: Span,
    pub resize: Seq<char>,
    pub fill_color: Seq<char>,
    pub filter: Seq<char>,
    pub invert_y: bool,
    pub transition_wave: Seq<char>,
}

/// The settings of an output: the directory of its images, and the rest.
pub struct OutputConfigView {
    pub path: Option<Seq<char>>,
    pub settings: SettingsView,
}

/// The text of a string that may be absent.
pub open spec fn option_text(s: Option<String>) -> Option<Seq<char>> {
    match s {
        Some(t) => Some(t@),
        None => None,
    }
}

/// A copy of a string that may be absent.
pub fn clone_option(s: &Option<String>) -> (r: Option<String>)
    ensures
        option_text(r) == option_text(*s),
{
    match s {
        Some(t) => Some(t.clone()),
        None => None,
    }
}

impl View for GlobalConfig {
    type V = SettingsView;

    open spec fn view(&self) -> SettingsView {
        SettingsView {
            duration: self.duration,
            queue_size: self.queue_size,
            sorting: self.sorting,
            transition_type: self.transition_type@,
            transition_step: self.transition_step,
            transition_angle: self.transition_angle@,
            transition_pos: self.transition_pos@,
            transition_bezier: self.transition_bezier@,
            transition_duration: self.transition_duration,
            resize: self.resize@,
            fill_color: self.fill_color@,
            filter: self.filter@,
            invert_y: self.invert_y,
            transition_wave: self.transition_wave@,
        }
    }
}

impl View for OutputConfig {
    type V = OutputConfigView;

    open spec fn view(&self) -> OutputConfigView {
        OutputConfigView {
            path: option_text(self.path),
            settings: SettingsView {
                duration: self.duration,
                queue_size: self.queue_size,
                sorting: self.sorting,
                transition_type: self.transition_type@,
                transition_step: self.transition_step,
                transition_angle: self.transition_angle@,
                transition_pos: self.transition_pos@,
                transition_bezier: self.transition_bezier@,
                transition_duration: self.transition_duration,
                resize: self.resize@,
                fill_color: self.fill_color@,
                filter: self.filter@,
                invert_y: self.invert_y,
                transition_wave: self.transition_wave@,
            },
        }
    }
}

/// The built-in settings: five minutes an image, ten images of lookahead,
/// random order, and the transition that the wallpaper tool is asked for.
pub open spec fn default_settings() -> SettingsView {
    SettingsView {
        duration: Span { nanos: 300_000_000_000 },
        queue_size: 10,
        sorting: Sorting::Random,
        transition_type: "wipe"@,
        transition_step: 90,
        transition_angle: AngleView { text: "90"@, in_range: true },
        transition_pos: "center"@,
        transition_bezier: "0.25,0.1,0.25,1"@,
        transition_duration: Span { nanos: 500_000_000 },
        resize: "crop"@,
        fill_color: "000000"@,
        filter: "Lanczos3"@,
        invert_y: false,
        transition_wave: "20,20"@,
    }
}

impl SettingsView {
    /// These settings, with each one that still has its built-in value taken
    /// from `other`. An angle is at its built-in value by its text.
    pub open spec fn filled_from(self, other: SettingsView) -> SettingsView {
        let d = default_settings();
        SettingsView {
            duration: if self.duration == d.duration {
                other.duration
            } else {
                self.duration
            },
            queue_size: if self.queue_size == d.queue_size {
                other.queue_size
            } else {
                self.queue_size
            },
            sorting: if self.sorting == d.sorting {
                other.sorting
            } else {
                self.sorting
            },
            transition_type: if self.transition_type == d.transition_type {
                other.transition_type
            } else {
                self.transition_type
            },
            transition_step: if self.transition_step == d.transition_step {
                other.transition_step
            } else {
                self.transition_step
            },
            transition_angle: if self.transition_angle.text == d.transition_angle.text {
                other.transition_angle
            } else {
                self.transition_angle
            },
            transition_pos: if self.transition_pos == d.transition_pos {
                other.transition_pos
            } else {
                self.transition_pos
            },
            transition_bezier: if self.transition_bezier == d.transition_bezier {
                other.transition_bezier
            } else {
                self.transition_bezier
            },
            transition_duration: if self.transition_duration == d.transition_duration {
                other.transition_duration
            } else {
                self.transition_duration
            },
            resize: if self.resize == d.resize {
                other.resize
            } else {
                self.resize
            },
            fill_color: if self.fill_color == d.fill_color {
                other.fill_color
            } else {
                self.fill_color
            },
            filter: if self.filter == d.filter {
                other.filter
            } else {
                self.filter
            },
            invert_y: if self.invert_y == d.invert_y {
                other.invert_y
            } else {
                self.invert_y
            },
            transition_wave: if self.transition_wave == d.transition_wave {
                other.transition_wave
            } else {
                self.transition_wave
            },
        }
    }
}

impl OutputConfigView {
    /// These settings with what is missing taken from `other`: the path if
    /// there is none, and each setting that still has its built-in value.
    pub open spec fn merged(self, other: OutputConfigView) -> OutputConfigView {
        OutputConfigView {
            path: if self.path is None {
                other.path
            } else {
                self.path
            },
            settings: self.settings.filled_from(other.settings),
        }
    }

    /// These settings with each one that still has its built-in value taken
    /// from the global section.
    pub open spec fn merged_from_global(self, global: SettingsView) -> OutputConfigView {
        OutputConfigView { path: self.path, settings: self.settings.filled_from(global) }
    }

    /// These settings overridden by those of an output's own section: all its
    /// settings, and its path if it has one.
    pub open spec fn merged_from_output(self, other: OutputConfigView) -> OutputConfigView {
        OutputConfigView {
            path: if other.path is Some {
                other.path
            } else {
                self.path
            },
            settings: other.settings,
        }
    }
}

/// The built-in time between rotations: five minutes.
pub fn default_duration() -> (r: Span)
    ensures
        r == default_settings().duration,
{
    Span::from_secs(300)
}

/// The built-in size of the lookahead buffer.
pub fn default_queue_size() -> (r: usize)
    ensures
        r == default_settings().queue_size,
{
    10
}

/// The built-in order of the images: random.
pub fn default_sorting() -> (r: Sorting)
    ensures
        r == default_settings().sorting,
{
    Sorting::Random
}

/// The built-in kind of transition.
pub fn default_transition_type() -> (r: String)
    ensures
        r@ == default_settings().transition_type,
{
    owned("wipe")
}

/// The built-in step of the transition.
pub fn default_transition_step() -> (r: u32)
    ensures
        r == default_settings().transition_step,
{
    90
}

/// The built-in angle of the transition: ninety degrees.
pub fn default_transition_angle() -> (r: Angle)
    ensures
        r@ == default_settings().transition_angle,
{
    Angle { text: owned("90"), in_range: true }
}

/// The built-in position of the transition.
pub fn default_transition_pos() -> (r: String)
    ensures
        r@ == default_settings().transition_pos,
{
    owned("center")
}

/// The built-in curve of the transition.
pub fn default_transition_bezier() -> (r: String)
    ensures
        r@ == default_settings().transition_bezier,
{
    owned("0.25,0.1,0.25,1")
}

/// The built-in length of the transition: half a second.
pub fn default_transition_duration() -> (r: Span)
    ensures
        r == default_settings().transition_duration,
{
    Span::from_millis(500)
}

/// The built-in way of fitting an image to an output.
pub fn default_resize() -> (r: String)
    ensures
        r@ == default_settings().resize,
{
    owned("crop")
}

/// The built-in color of what an image does not cover.
pub fn default_fill_color() -> (r: String)
    ensures
        r@ == default_settings().fill_color,
{
    owned("000000")
}

/// The built-in filter for scaling.
pub fn default_filter() -> (r: String)
    ensures
        r@ == default_settings().filter,
{
    owned("Lanczos3")
}

/// Whether the vertical axis of the position is inverted, as built in.
pub fn default_invert_y() -> (r: bool)
    ensures
        r == default_settings().invert_y,
{
    false
}

/// The built-in wave of the transition.
pub fn default_transition_wave() -> (r: String)
    ensures
        r@ == default_settings().transition_wave,
{
    owned("20,20")
}

/// The built-in behavior: every output on its own.
pub fn default_monitor_behavior() -> (r: MonitorBehavior)
    ensures
        r@ == BehaviorView::Independent,
{
    MonitorBehavior::Independent
}

impl Default for GlobalConfig {
    fn default() -> (r: GlobalConfig)
        ensures
            r@ == default_settings(),
    {
        GlobalConfig {
            duration: default_duration(),
            queue_size: default_queue_size(),
            sorting: default_sorting(),
            transition_type: default_transition_type(),
            transition_step: default_transition_step(),
            transition_angle: default_transition_angle(),
            transition_pos: default_transition_pos(),
            transition_bezier: default_transition_bezier(),
            transition_duration: default_transition_duration(),
            resize: default_resize(),
            fill_color: default_fill_color(),
            filter: default_filter(),
            invert_y: default_invert_y(),
            transition_wave: default_transition_wave(),
        }
    }
}

impl Default for OutputConfig {
    fn default() -> (r: OutputConfig)
        ensures
            r@ == (OutputConfigView { path: None, settings: default_settings() }),
    {
        OutputConfig {
            path: None,
            duration: default_duration(),
            queue_size: default_queue_size(),
            sorting: default_sorting(),
            transition_type: default_transition_type(),
            transition_step: default_transition_step(),
            transition_angle: default_transition_angle(),
            transition_pos: default_transition_pos(),
            transition_bezier: default_transition_bezier(),
            transition_duration: default_transition_duration(),
            resize: default_resize(),
            fill_color: default_fill_color(),
            filter: default_filter(),
            invert_y: default_invert_y(),
            transition_wave: default_transition_wave(),
        }
    }
}

impl Clone for GlobalConfig {
    fn clone(&self) -> (r: GlobalConfig)
        ensures
            r@ == self@,
    {
        GlobalConfig {
            duration: self.duration,
            queue_size: self.queue_size,
            sorting: self.sorting,
            transition_type: self.transition_type.clone(),
            transition_step: self.transition_step,
            transition_angle: self.transition_angle.clone(),
            transition_pos: self.transition_pos.clone(),
            transition_bezier: self.transition_bezier.clone(),
            transition_duration: self.transition_duration,
            resize: self.resize.clone(),
            fill_color: self.fill_color.clone(),
            filter: self.filter.clone(),
            invert_y: self.invert_y,
            transition_wave: self.transition_wave.clone(),
        }
    }
}

impl Clone for OutputConfig {
    fn clone(&self) -> (r: OutputConfig)
        ensures
            r@ == self@,
    {
        OutputConfig {
            path: clone_option(&self.path),
            duration: self.duration,
            queue_size: self.queue_size,
            sorting: self.sorting,
            transition_type: self.transition_type.clone(),
            transition_step: self.transition_step,
            transition_angle: self.transition_angle.clone(),
            transition_pos: self.transition_pos.clone(),
            transition_bezier: self.transition_bezier.clone(),
            transition_duration: self.transition_duration,
            resize: self.resize.clone(),
            fill_color: self.fill_color.clone(),
            filter: self.filter.clone(),
            invert_y: self.invert_y,
            transition_wave: self.transition_wave.clone(),
        }
    }
}

impl OutputConfig {
    /// Takes from `other` what is missing here: the path if there is none,
    /// and each setting that still has its built-in value.
    pub fn merge(&mut self, other: &OutputConfig)
        ensures
            final(self)@ == old(self)@.merged(other@),
    {
        if self.path.is_none() {
            self.path = clone_option(&other.path);
        }
        self.fill(&other.as_global());
    }

    /// Takes from the global section each setting that still has its
    /// built-in value here.
    pub fn merge_from_global(&mut self, global: &GlobalConfig)
        ensures
            final(self)@ == old(self)@.merged_from_global(global@),
    {
        self.fill(global);
    }

    /// Overrides these settings by those of an output's own section: all its
    /// settings, and its path if it has one.
    pub fn merge_from_output(&mut self, other: &OutputConfig)
        ensures
            final(self)@ == old(self)@.merged_from_output(other@),
    {
        self.duration = other.duration;
        self.queue_size = other.queue_size;
        self.sorting = other.sorting;
        self.transition_type = other.transition_type.clone();
        self.transition_step = other.transition_step;
        self.transition_angle = other.transition_angle.clone();
        self.transition_pos = other.transition_pos.clone();
        self.transition_bezier = other.transition_bezier.clone();
        self.transition_duration = other.transition_duration;
        self.resize = other.resize.clone();
        self.fill_color = other.fill_color.clone();
        self.filter = other.filter.clone();
        self.invert_y = other.invert_y;
        self.transition_wave = other.transition_wave.clone();
        if other.path.is_some() {
            self.path = clone_option(&other.path);
        }
    }

    /// The settings of this section without its path.
    fn as_global(&self) -> (r: GlobalConfig)
        ensures
            r@ == self@.settings,
    {
        GlobalConfig {
            duration: self.duration,
            queue_size: self.queue_size,
            sorting: self.sorting,
            transition_type: self.transition_type.clone(),
            transition_step: self.transition_step,
            transition_angle: self.transition_angle.clone(),
            transition_pos: self.transition_pos.clone(),
            transition_bezier: self.transition_bezier.clone(),
            transition_duration: self.transition_duration,
            resize: self.resize.clone(),
            fill_color: self.fill_color.clone(),
            filter: self.filter.clone(),
            invert_y: self.invert_y,
            transition_wave: self.transition_wave.clone(),
        }
    }

    /// Takes from `other` each setting that still has its built-in value.
    fn fill(&mut self, other: &GlobalConfig)
        ensures
            final(self)@.path == old(self)@.path,
            final(self)@.settings == old(self)@.settings.filled_from(other@),
    {
        self.duration = if self.duration == default_duration() {
            other.duration
        } else {
            self.duration
        };
        self.queue_size = if self.queue_size == default_queue_size() {
            other.queue_size
        } else {
            self.queue_size
        };
        self.sorting = if self.sorting == default_sorting() {
            other.sorting
        } else {
            self.sorting
        };
        self.transition_type = pick_text(&self.transition_type, "wipe", &other.transition_type);
        self.transition_step = if self.transition_step == default_transition_step() {
            other.transition_step
        } else {
            self.transition_step
        };
        self.transition_angle = if same_text(self.transition_angle.text.as_str(), "90") {
            other.transition_angle.clone()
        } else {
            self.transition_angle.clone()
        };
        self.transition_pos = pick_text(&self.transition_pos, "center", &other.transition_pos);
        self.transition_bezier = pick_text(
            &self.transition_bezier,
            "0.25,0.1,0.25,1",
            &other.transition_bezier,
        );
        self.transition_duration = if self.transition_duration
            == default_transition_duration() {
            other.transition_duration
        } else {
            self.transition_duration
        };
        self.resize = pick_text(&self.resize, "crop", &other.resize);
        self.fill_color = pick_text(&self.fill_color, "000000", &other.fill_color);
        self.filter = pick_text(&self.filter, "Lanczos3", &other.filter);
        self.invert_y = if self.invert_y == default_invert_y() {
            other.invert_y
        } else {
            self.invert_y
        };
        self.transition_wave = pick_text(&self.transition_wave, "20,20", &other.transition_wave);
    }
}

/// A copy of `other` if `own` holds the built-in text, else of `own`.
fn pick_text(own: &String, built_in: &str, other: &String) -> (r: String)
    ensures
        r@ == if own@ == built_in@ {
            other@
        } else {
            own@
        },
{
    if same_text(own.as_str(), built_in) {
        other.clone()
    } else {
        own.clone()
    }
}

/// The section of one output, under its name.
#[derive(Debug)]
pub struct NamedOutputConfig {
    pub name: String,
    pub config: OutputConfig,
}

/// The whole configuration.
#[derive(Debug)]
pub struct Config {
    pub global: GlobalConfig,
    pub any: OutputConfig,
    pub monitor_behavior: MonitorBehavior,
    pub monitor_groups: Option<Vec<Vec<String>>>,
    /// The sections of single outputs; for a name with several sections the
    /// first one counts.
    pub outputs: Vec<NamedOutputConfig>,
}

/// A configuration, its texts as characters; the names and the settings of
/// the output sections go side by side.
pub struct ConfigView {
    pub global: SettingsView,
    pub any: OutputConfigView,
    pub monitor_behavior: BehaviorView,
    pub monitor_groups: Option<Seq<Seq<Seq<char>>>>,
    pub output_names: Seq<Seq<char>>,
    pub output_configs: Seq<OutputConfigView>,
}

impl View for Config {
    type V = ConfigView;

    open spec fn view(&self) -> ConfigView {
        ConfigView {
            global: self.global@,
            any: self.any@,
            monitor_behavior: self.monitor_behavior@,
            monitor_groups: match self.monitor_groups {
                Some(groups) => Some(group_texts(groups@)),
                None => None,
            },
            output_names: self.outputs@.map_values(|o: NamedOutputConfig| o.name@),
            output_configs: self.outputs@.map_values(|o: NamedOutputConfig| o.config@),
        }
    }
}

impl ConfigView {
    /// The settings of the output `name`: those for any output, filled from
    /// the global section, then overridden by the output's own section if it
    /// has one.
    pub open spec fn output_config(self, name: Seq<char>) -> OutputConfigView {
        let base = self.any.merged_from_global(self.global);
        match first_index_of(self.output_names, name) {
            Some(i) => base.merged_from_output(self.output_configs[i]),
            None => base,
        }
    }

    /// The behavior that is in effect: grouped behavior takes its groups from
    /// the list of groups, and without such a list it is independent
    /// behavior.
    pub open spec fn effective_behavior(self) -> BehaviorView {
        match (self.monitor_behavior, self.monitor_groups) {
            (BehaviorView::Grouped(_), Some(groups)) => BehaviorView::Grouped(groups),
            (BehaviorView::Grouped(_), None) => BehaviorView::Independent,
            (behavior, _) => behavior,
        }
    }
}

impl Default for Config {
    fn default() -> (r: Config)
        ensures
            r@.global == default_settings(),
            r@.any == (OutputConfigView { path: None, settings: default_settings() }),
            r@.monitor_behavior == BehaviorView::Independent,
            r@.monitor_groups is None,
            r@.output_names.len() == 0,
    {
        Config {
            global: GlobalConfig::default(),
            any: OutputConfig::default(),
            monitor_behavior: default_monitor_behavior(),
            monitor_groups: None,
            outputs: Vec::new(),
        }
    }
}

impl Config {
    /// The settings of the output `output_name`: those for any output, filled
    /// from the global section, then overridden by the output's own section
    /// if it has one.
    pub fn get_output_config(&self, output_name: &str) -> (r: OutputConfig)
        ensures
            r@ == self@.output_config(output_name@),
    {
        let mut config = self.any.clone();
        config.merge_from_global(&self.global);
        proof {
            lemma_first_index_of(self@.output_names, output_name@);
        }
        let mut i: usize = 0;
        while i < self.outputs.len()
            invariant
                i <= self.outputs@.len(),
                forall|j: int| 0 <= j < i ==> self@.output_names[j] != output_name@,
                config@ == self@.any.merged_from_global(self@.global),
                forall|k: int|
                    crate::text::is_first_index(self@.output_names, output_name@, k)
                        ==> first_index_of(self@.output_names, output_name@) == Some(k),
                first_index_of(self@.output_names, output_name@) is Some
                    <==> self@.output_names.contains(output_name@),
            decreases self.outputs@.len() - i,
        {
            if same_text(self.outputs[i].name.as_str(), output_name) {
                assert(crate::text::is_first_index(self@.output_names, output_name@, i as int));
                config.merge_from_output(&self.outputs[i].config);
                return config;
            }
            i += 1;
        }
        config
    }

    /// The behavior that is in effect: grouped behavior takes its groups from
    /// the list of groups, and without such a list it is independent
    /// behavior.
    pub fn get_effective_monitor_behavior(&self) -> (r: MonitorBehavior)
        ensures
            r@ == self@.effective_behavior(),
    {
        match &self.monitor_behavior {
            MonitorBehavior::Grouped(_) => match &self.monitor_groups {
                Some(groups) => MonitorBehavior::Grouped(clone_groups(groups)),
                None => MonitorBehavior::Independent,
            },
            behavior => behavior.clone(),
        }
    }
}

/// What `{:?}` prints for a `std::time::Duration` of so many seconds and
/// nanoseconds: the largest fitting unit, with a fraction ("1.5s", "500ms").
pub uninterp spec fn duration_debug_text(secs: u64, nanos: u32) -> Seq<char>;

/// `format!("{:?}", d)` for the `std::time::Duration` made of `secs` and
/// `nanos` by `Duration::new`, which takes nanoseconds under a second as they
/// are.
#[verifier::external_body]
fn duration_debug(secs: u64, nanos: u32) -> (r: String)
    requires
        nanos < 1_000_000_000,
    ensures
        r@ == duration_debug_text(secs, nanos),
{
    format!("{:?}", std::time::Duration::new(secs, nanos))
}

/// How a span is written in a message.
pub open spec fn span_text(d: Span) -> Seq<char> {
    duration_debug_text(d.whole_secs(), (d.nanos % NANOS_PER_SEC) as u32)
}

/// How a span is written in a message.
pub fn span_to_text(d: Span) -> (r: String)
    ensures
        r@ == span_text(d),
{
    duration_debug(d.as_secs(), d.subsec_nanos())
}

/// What is wrong with a configuration.
pub enum ConfigFault {
    /// A setting has a value that is not allowed.
    InvalidValue { field: Seq<char>, value: Seq<char> },
    /// The configuration as a whole does not hold together.
    Validation { message: Seq<char> },
}

impl ConfigFault {
    /// The fault that an error reports, if it reports one.
    pub open spec fn of(e: SwwwsError) -> Option<ConfigFault> {
        match e {
            SwwwsError::Config(ConfigError::InvalidValue { field, value }) => Some(
                ConfigFault::InvalidValue { field: field@, value: value@ },
            ),
            SwwwsError::Config(ConfigError::Validation { message }) => Some(
                ConfigFault::Validation { message: message@ },
            ),
            _ => None,
        }
    }

    /// The message of the error that reports this fault.
    pub open spec fn message_text(self) -> Seq<char> {
        "Configuration error: "@ + match self {
            ConfigFault::InvalidValue { field, value } => "Invalid configuration value for "@
                + field + ": "@ + value,
            ConfigFault::Validation { message } => "Configuration validation failed: "@
                + message,
        }
    }
}

impl SettingsView {
    /// The first setting with a value that is not allowed, in the order
    /// duration (under one second), queue size (zero), transition step
    /// (zero), transition angle (out of range), transition duration (under
    /// one millisecond).
    pub open spec fn fault(self) -> Option<ConfigFault> {
        if self.duration.nanos < NANOS_PER_SEC {
            Some(ConfigFault::InvalidValue { field: "duration"@, value: span_text(self.duration) })
        } else if self.queue_size == 0 {
            Some(ConfigFault::InvalidValue { field: "queue_size"@, value: decimal_text(0) })
        } else if self.transition_step == 0 {
            Some(ConfigFault::InvalidValue { field: "transition_step"@, value: decimal_text(0) })
        } else if !self.transition_angle.in_range {
            Some(
                ConfigFault::InvalidValue {
                    field: "transition_angle"@,
                    value: self.transition_angle.text,
                },
            )
        } else if self.transition_duration.nanos < NANOS_PER_MILLI {
            Some(
                ConfigFault::InvalidValue {
                    field: "transition_duration"@,
                    value: span_text(self.transition_duration),
                },
            )
        } else {
            None
        }
    }
}

/// Whether a result reports exactly this fault, or none.
pub open spec fn reports(r: Result<(), SwwwsError>, fault: Option<ConfigFault>) -> bool {
    match fault {
        None => r is Ok,
        Some(f) => r matches Err(e) && ConfigFault::of(e) == Some(f),
    }
}

fn invalid_value(field: &str, value: String) -> (r: Result<(), SwwwsError>)
    ensures
        reports(r, Some(ConfigFault::InvalidValue { field: field@, value: value@ })),
{
    Err(SwwwsError::Config(ConfigError::InvalidValue { field: owned(field), value }))
}

fn invalid(message: String) -> (r: Result<(), SwwwsError>)
    ensures
        reports(r, Some(ConfigFault::Validation { message: message@ })),
{
    Err(SwwwsError::Config(ConfigError::Validation { message }))
}

impl GlobalConfig {
    /// Checks each setting, and reports the first whose value is not
    /// allowed.
    pub fn validate(&self) -> (r: Result<(), SwwwsError>)
        ensures
            reports(r, self@.fault()),
    {
        if self.duration.nanos < NANOS_PER_SEC {
            invalid_value("duration", span_to_text(self.duration))
        } else if self.queue_size == 0 {
            invalid_value("queue_size", decimal(0))
        } else if self.transition_step == 0 {
            invalid_value("transition_step", decimal(0))
        } else if !self.transition_angle.in_range {
            invalid_value("transition_angle", self.transition_angle.text.clone())
        } else if self.transition_duration.nanos < NANOS_PER_MILLI {
            invalid_value("transition_duration", span_to_text(self.transition_duration))
        } else {
            Ok(())
        }
    }
}

impl OutputConfig {
    /// Checks each setting, and reports the first whose value is not
    /// allowed.
    pub fn validate(&self) -> (r: Result<(), SwwwsError>)
        ensures
            reports(r, self@.settings.fault()),
    {
        self.as_global().validate()
    }
}

/// Whether `j` is the first place in `names` of a name that occurred before.
pub open spec fn is_first_repeat(names: Seq<Seq<char>>, j: int) -> bool {
    &&& 0 <= j < names.len()
    &&& names.take(j).contains(names[j])
    &&& forall|k: int| 0 <= k < j ==> !names.take(k).contains(#[trigger] names[k])
}

/// The first name of `names` that occurred before, if there is one.
pub open spec fn first_repeat(names: Seq<Seq<char>>) -> Option<Seq<char>> {
    if exists|j: int| is_first_repeat(names, j) {
        Some(names[choose|j: int| is_first_repeat(names, j)])
    } else {
        None
    }
}

/// Whether `i` is the first place in `groups` of an empty group.
pub open spec fn is_first_empty(groups: Seq<Seq<Seq<char>>>, i: int) -> bool {
    &&& 0 <= i < groups.len()
    &&& groups[i].len() == 0
    &&& forall|k: int| 0 <= k < i ==> (#[trigger] groups[k]).len() > 0
}

/// The place of the first empty group, if there is one.
pub open spec fn first_empty(groups: Seq<Seq<Seq<char>>>) -> Option<int> {
    if exists|i: int| is_first_empty(groups, i) {
        Some(choose|i: int| is_first_empty(groups, i))
    } else {
        None
    }
}

/// What is wrong with a list of groups: it is empty, or one of its groups
/// is, or an output is named twice.
pub open spec fn groups_fault(groups: Seq<Seq<Seq<char>>>) -> Option<ConfigFault> {
    if groups.len() == 0 {
        Some(ConfigFault::Validation { message: "monitor_groups cannot be empty"@ })
    } else if let Some(i) = first_empty(groups) {
        Some(
            ConfigFault::Validation {
                message: "Group "@ + decimal_text(i as nat) + " is empty"@,
            },
        )
    } else if let Some(name) = first_repeat(groups.flatten()) {
        Some(
            ConfigFault::Validation {
                message: "Output '"@ + name + "' appears in multiple groups"@,
            },
        )
    } else {
        None
    }
}

/// The outputs of all groups, group after group.
pub fn flatten_groups(groups: &Vec<Vec<String>>) -> (r: Vec<String>)
    ensures
        texts(r@) == group_texts(groups@).flatten(),
{
    let mut flat: Vec<String> = Vec::new();
    let mut i: usize = 0;
    assert(group_texts(groups@).take(0) =~= Seq::empty());
    while i < groups.len()
        invariant
            i <= groups@.len(),
            texts(flat@) == group_texts(groups@).take(i as int).flatten(),
        decreases groups@.len() - i,
    {
        let ghost f = flat@;
        let mut g = clone_texts(&groups[i]);
        let ghost gt = texts(g@);
        flat.append(&mut g);
        proof {
            assert(texts(flat@) =~= texts(f) + gt);
            let taken = group_texts(groups@).take(i as int);
            taken.lemma_flatten_push(gt);
            assert(taken.push(gt) =~= group_texts(groups@).take(i + 1));
        }
        i += 1;
    }
    assert(group_texts(groups@).take(groups@.len() as int) =~= group_texts(groups@));
    flat
}

/// Checks a list of groups: it must not be empty, none of its groups may be
/// empty, and no output may be named twice.
pub fn validate_groups(groups: &Vec<Vec<String>>) -> (r: Result<(), SwwwsError>)
    ensures
        reports(r, groups_fault(group_texts(groups@))),
{
    let ghost gs = group_texts(groups@);
    if groups.len() == 0 {
        return invalid(owned("monitor_groups cannot be empty"));
    }
    let mut i: usize = 0;
    while i < groups.len()
        invariant
            i <= groups@.len(),
            gs == group_texts(groups@),
            forall|k: int| 0 <= k < i ==> (#[trigger] gs[k]).len() > 0,
        decreases groups@.len() - i,
    {
        if groups[i].len() == 0 {
            proof {
                assert(is_first_empty(gs, i as int));
                let c = choose|c: int| is_first_empty(gs, c);
                if c < i {
                    assert(gs[c].len() > 0);
                }
                if i < c {
                    assert(gs[i as int].len() > 0);
                }
            }
            return invalid(join3("Group ", decimal(i as u64).as_str(), " is empty"));
        }
        i += 1;
    }
    assert(first_empty(gs) is None) by {
        if exists|c: int| is_first_empty(gs, c) {
            let c = choose|c: int| is_first_empty(gs, c);
            assert(gs[c].len() > 0);
        }
    }
    let flat = flatten_groups(groups);
    let ghost names = texts(flat@);
    let mut j: usize = 0;
    while j < flat.len()
        invariant
            j <= flat@.len(),
            names == texts(flat@),
            names == gs.flatten(),
            gs == group_texts(groups@),
            gs.len() > 0,
            first_empty(gs) is None,
            forall|k: int| 0 <= k < j ==> !names.take(k).contains(#[trigger] names[k]),
        decreases flat@.len() - j,
    {
        let first = index_of_text(&flat, flat[j].as_str());
        proof {
            assert(names[j as int] == flat@[j as int]@);
            assert(names.contains(names[j as int]));
        }
        match first {
            Some(at) => {
                if at < j {
                    proof {
                        assert(names.take(j as int)[at as int] == names[j as int]);
                        assert(is_first_repeat(names, j as int));
                        let c = choose|c: int| is_first_repeat(names, c);
                        if c < j {
                            assert(!names.take(c).contains(names[c]));
                        }
                        if j < c {
                            assert(!names.take(j as int).contains(names[j as int]));
                        }
                        assert(c == j);
                        assert(first_repeat(names) == Some(names[j as int]));
                    }
                    return invalid(
                        join3("Output '", flat[j].as_str(), "' appears in multiple groups"),
                    );
                }
                assert(!names.take(j as int).contains(names[j as int])) by {
                    if names.take(j as int).contains(names[j as int]) {
                        let w = choose|w: int|
                            0 <= w < names.take(j as int).len() && names.take(j as int)[w]
                                == names[j as int];
                        assert(names[w] == names[j as int]);
                    }
                }
            },
            None => {},
        }
        j += 1;
    }
    assert(first_repeat(names) is None) by {
        if exists|c: int| is_first_repeat(names, c) {
            let c = choose|c: int| is_first_repeat(names, c);
            assert(!names.take(c).contains(names[c]));
        }
    }
    Ok(())
}

impl ConfigView {
    /// Whether `i` is the first output section with a setting that is not
    /// allowed.
    pub open spec fn is_first_faulty(self, i: int) -> bool {
        &&& 0 <= i < self.output_configs.len()
        &&& self.output_configs[i].settings.fault() is Some
        &&& forall|k: int|
            0 <= k < i ==> (#[trigger] self.output_configs[k]).settings.fault() is None
    }

    /// What is wrong with this configuration, if anything: the first fault of
    /// the global section, of the section for any output, of the output
    /// sections in their order (named with the output), and of the groups.
    pub open spec fn fault(self) -> Option<ConfigFault> {
        if self.global.fault() is Some {
            self.global.fault()
        } else if self.any.settings.fault() is Some {
            self.any.settings.fault()
        } else if exists|i: int| self.is_first_faulty(i) {
            let i = choose|i: int| self.is_first_faulty(i);
            Some(
                ConfigFault::Validation {
                    message: "Output '"@ + self.output_names[i] + "': "@
                        + self.output_configs[i].settings.fault().unwrap().message_text(),
                },
            )
        } else {
            match self.monitor_groups {
                Some(groups) => groups_fault(groups),
                None => None,
            }
        }
    }
}

impl Config {
    /// Checks the whole configuration and reports the first thing wrong
    /// with it.
    pub fn validate(&self) -> (r: Result<(), SwwwsError>)
        ensures
            reports(r, self@.fault()),
    {
        let global = self.global.validate();
        if global.is_err() {
            return global;
        }
        let any = self.any.validate();
        if any.is_err() {
            return any;
        }
        let mut i: usize = 0;
        while i < self.outputs.len()
            invariant
                i <= self.outputs@.len(),
                self@.global.fault() is None,
                self@.any.settings.fault() is None,
                forall|k: int|
                    0 <= k < i ==> (#[trigger] self@.output_configs[k]).settings.fault() is None,
            decreases self.outputs@.len() - i,
        {
            match self.outputs[i].config.validate() {
                Ok(_) => {},
                Err(e) => {
                    proof {
                        assert(self@.is_first_faulty(i as int));
                        let c = choose|c: int| self@.is_first_faulty(c);
                        if c < i {
                            assert(self@.output_configs[c].settings.fault() is None);
                        }
                        if i < c {
                            assert(self@.output_configs[i as int].settings.fault() is None);
                        }
                        assert(c == i);
                        assert(self@.output_names[i as int] == self.outputs@[i as int].name@);
                        let f = self@.output_configs[i as int].settings.fault().unwrap();
                        assert(ConfigFault::of(e) == Some(f));
                        assert(e.message_text() == f.message_text());
                    }
                    let head = join3("Output '", self.outputs[i].name.as_str(), "': ");
                    return invalid(join(head.as_str(), e.message().as_str()));
                },
            }
            i += 1;
        }
        assert(!exists|c: int| self@.is_first_faulty(c)) by {
            if exists|c: int| self@.is_first_faulty(c) {
                let c = choose|c: int| self@.is_first_faulty(c);
                assert(self@.output_configs[c].settings.fault() is Some);
            }
        }
        self.validate_monitor_behavior()
    }

    /// Checks the list of groups, if there is one.
    pub fn validate_monitor_behavior(&self) -> (r: Result<(), SwwwsError>)
        ensures
            reports(
                r,
                match self@.monitor_groups {
                    Some(groups) => groups_fault(groups),
                    None => None,
                },
            ),
    {
        match &self.monitor_groups {
            Some(groups) => validate_groups(groups),
            None => Ok(()),
        }
    }
}

/// The behavior that the text of a configuration file names outright: in
/// the first line that holds `monitor_behavior`, the first of
/// `"Synchronized"`, `"Independent"` and `"Grouped"` (in that order, with
/// their quotes) that stands in the line. Grouped behavior is named without
/// groups; they come from the list of groups.
pub open spec fn named_behavior(content: Seq<char>) -> Option<BehaviorView> {
    match first_line_with(content, "monitor_behavior"@) {
        None => None,
        Some(line) => if has_infix(line, "\"Synchronized\""@) {
            Some(BehaviorView::Synchronized)
        } else if has_infix(line, "\"Independent\""@) {
            Some(BehaviorView::Independent)
        } else if has_infix(line, "\"Grouped\""@) {
            Some(BehaviorView::Grouped(Seq::empty()))
        } else {
            None
        },
    }
}

/// The behavior that the text of a configuration file names outright.
pub fn behavior_override(content: &str) -> (r: Option<MonitorBehavior>)
    ensures
        match named_behavior(content@) {
            Some(b) => r matches Some(x) && x@ == b,
            None => r is None,
        },
{
    match find_line_with(content, "monitor_behavior") {
        None => None,
        Some((from, to)) => {
            if range_contains(content, from, to, "\"Synchronized\"") {
                Some(MonitorBehavior::Synchronized)
            } else if range_contains(content, from, to, "\"Independent\"") {
                Some(MonitorBehavior::Independent)
            } else if range_contains(content, from, to, "\"Grouped\"") {
                let groups: Vec<Vec<String>> = Vec::new();
                assert(group_texts(groups@) =~= Seq::empty());
                Some(MonitorBehavior::Grouped(groups))
            } else {
                None
            }
        },
    }
}

impl ConfigView {
    /// This configuration with the behavior that the text of its file names
    /// outright, if it names one.
    pub open spec fn with_named_behavior(self, content: Seq<char>) -> ConfigView {
        match named_behavior(content) {
            Some(b) => ConfigView { monitor_behavior: b, ..self },
            None => self,
        }
    }
}

impl Config {
    /// Finishes the loading of a configuration that was read from the text
    /// `content`: the behavior that the text names outright is taken, and
    /// the whole is checked.
    pub fn loaded(config: Config, content: &str) -> (r: Result<Config, SwwwsError>)
        ensures
            match config@.with_named_behavior(content@).fault() {
                None => r matches Ok(c) && c@ == config@.with_named_behavior(content@),
                Some(f) => r matches Err(e) && ConfigFault::of(e) == Some(f),
            },
    {
        let mut config = config;
        match behavior_override(content) {
            Some(behavior) => {
                config.monitor_behavior = behavior;
            },
            None => {},
        }
        match config.validate() {
            Ok(_) => Ok(config),
            Err(e) => Err(e),
        }
    }
}

/// The paths among the first `n` of a list of paths that may be absent,
/// each once, in the order of their first places.
pub open spec fn distinct_paths(paths: Seq<Option<Seq<char>>>, n: int) -> Seq<Seq<char>>
    decreases n,
{
    if n <= 0 {
        Seq::empty()
    } else {
        let before = distinct_paths(paths, n - 1);
        match paths[n - 1] {
            Some(p) => if before.contains(p) {
                before
            } else {
                before.push(p)
            },
            None => before,
        }
    }
}

/// Every path among the first `n` is one of the distinct paths.
pub proof fn lemma_distinct_paths(paths: Seq<Option<Seq<char>>>, n: int, i: int)
    requires
        0 <= i < n <= paths.len(),
        paths[i] is Some,
    ensures
        distinct_paths(paths, n).contains(paths[i]->0),
    decreases n,
{
    let before = distinct_paths(paths, n - 1);
    let after = distinct_paths(paths, n);
    if i < n - 1 {
        lemma_distinct_paths(paths, n - 1, i);
        let k = choose|k: int| 0 <= k < before.len() && before[k] == paths[i]->0;
        assert(after[k] == paths[i]->0);
    } else {
        let p = paths[i]->0;
        if !before.contains(p) {
            assert(after[before.len() as int] == p);
        }
    }
}

impl ConfigView {
    /// The paths of the sections: that of the section for any output, then
    /// those of the output sections.
    pub open spec fn section_paths(self) -> Seq<Option<Seq<char>>> {
        seq![self.any.path] + self.output_configs.map_values(|c: OutputConfigView| c.path)
    }

    /// The directories that this configuration names as sources of images,
    /// each once.
    pub open spec fn image_paths(self) -> Seq<Seq<char>> {
        distinct_paths(self.section_paths(), self.section_paths().len() as int)
    }
}

/// The path that an output is configured with is one of the directories
/// that the configuration names, whatever the output.
pub proof fn lemma_image_paths_cover(config: ConfigView, name: Seq<char>)
    requires
        config.output_names.len() == config.output_configs.len(),
        config.output_config(name).path is Some,
    ensures
        config.image_paths().contains(config.output_config(name).path->0),
{
    let paths = config.section_paths();
    lemma_first_index_of(config.output_names, name);
    match first_index_of(config.output_names, name) {
        Some(i) => {
            if config.output_configs[i].path is Some {
                assert(paths[i + 1] == config.output_configs[i].path);
                lemma_distinct_paths(paths, paths.len() as int, i + 1);
            } else {
                assert(paths[0] == config.any.path);
                lemma_distinct_paths(paths, paths.len() as int, 0);
            }
        },
        None => {
            assert(paths[0] == config.any.path);
            lemma_distinct_paths(paths, paths.len() as int, 0);
        },
    }
}

impl Config {
    /// The directories that this configuration names as sources of images,
    /// each once.
    pub fn image_paths(&self) -> (r: Vec<String>)
        ensures
            texts(r@) == self@.image_paths(),
    {
        let ghost paths = self@.section_paths();
        let mut found: Vec<String> = Vec::new();
        assert(texts(found@) =~= distinct_paths(paths, 0));
        match &self.any.path {
            Some(p) => {
                found.push(p.clone());
                assert(texts(found@) =~= seq![p@]);
                assert(distinct_paths(paths, 1) =~= seq![p@]) by {
                    assert(distinct_paths(paths, 0) =~= Seq::empty());
                    assert(paths[0] == Some(p@));
                }
            },
            None => {
                assert(paths[0] is None);
            },
        }
        let mut i: usize = 0;
        while i < self.outputs.len()
            invariant
                i <= self.outputs@.len(),
                paths == self@.section_paths(),
                paths.len() == self.outputs@.len() + 1,
                texts(found@) == distinct_paths(paths, i + 1),
            decreases self.outputs@.len() - i,
        {
            let ghost before = found@;
            assert(paths[i + 1] == option_text(self.outputs@[i as int].config.path));
            match &self.outputs[i].config.path {
                Some(p) => {
                    if !index_of_text(&found, p.as_str()).is_some() {
                        found.push(p.clone());
                        assert(texts(found@) =~= texts(before).push(p@));
                    }
                },
                None => {},
            }
            i += 1;
        }
        found
    }
}

} // verus!

use vstd::prelude::*;

use crate::config::{
    calibrate_args, calibrate_args_spec, HdrConf, HdrConfView, HDR_CAL, views,
};
use crate::edid::{DisplayInfo, DisplayInfoView};
use crate::pattern::{pattern_arg, CalibPattern};
use crate::text::{chars_of, decimal, decimal_string, range_equals};

verus! {

/// What the user or a finished task tells the panel.
#[derive(Debug)]
pub enum Message {
    HdrToggle(bool),
    SdrNits(u32),
    PeakNits(u32),
    Gamut(u32),
    GamutMode(usize),
    BitDepth(usize),
    Apply,
    Reset,
    Applied(Result<(), String>),
    ShowCalPat(CalibPattern),
    CalibrateHdr,
    CloseCalPat,
}

/// The outside work that an update asks for.
#[derive(Debug)]
pub enum Action {
    Nothing,
    /// Save these settings with the privileged helper (`save_args`) and
    /// apply them; report the outcome with `Message::Applied`.
    SaveAndApply(HdrConf),
    /// Turn HDR off with the privileged helper (`reset_args`); report the
    /// outcome with `Message::Applied`.
    ResetHdr,
    /// Close the calibration window if one is open, then start the
    /// calibration overlay with these arguments; report the outcome with
    /// `PanelState::calibration_started`.
    LaunchCalibration(Vec<String>),
    /// Close the calibration window if one is open.
    CloseCalibration,
}

pub enum ActionView {
    Nothing,
    SaveAndApply(HdrConfView),
    ResetHdr,
    LaunchCalibration(Seq<Seq<char>>),
    CloseCalibration,
}

impl View for Action {
    type V = ActionView;

    open spec fn view(&self) -> ActionView {
        match self {
            Action::Nothing => ActionView::Nothing,
            Action::SaveAndApply(c) => ActionView::SaveAndApply(c@),
            Action::ResetHdr => ActionView::ResetHdr,
            Action::LaunchCalibration(args) => ActionView::LaunchCalibration(views(args@)),
            Action::CloseCalibration => ActionView::CloseCalibration,
        }
    }
}

/// The state of the settings panel.
pub struct PanelState {
    pub conf: HdrConf,
    pub hdr_enabled: bool,
    pub display: Option<DisplayInfo>,
    pub status: Option<String>,
    /// Whether a calibration window that the panel started is open.
    pub calibration_open: bool,
}

pub struct PanelView {
    pub conf: HdrConfView,
    pub hdr_enabled: bool,
    pub display: Option<DisplayInfoView>,
    pub status: Option<Seq<char>>,
    pub calibration_open: bool,
}

impl View for PanelState {
    type V = PanelView;

    open spec fn view(&self) -> PanelView {
        PanelView {
            conf: self.conf@,
            hdr_enabled: self.hdr_enabled,
            display: match self.display {
                Some(d) => Some(d@),
                None => None,
            },
            status: match self.status {
                Some(s) => Some(s@),
                None => None,
            },
            calibration_open: self.calibration_open,
        }
    }
}

/// The gamut mode of dropdown entry `k` (entries past the last select it).
pub open spec fn gamut_mode_name(k: nat) -> Seq<char> {
    if k == 0 {
        "bt2020"@
    } else if k == 1 {
        "dci-p3"@
    } else {
        "srgb"@
    }
}

/// The bit depth of dropdown entry `k` (entries past the last select it).
pub open spec fn bpc_value(k: nat) -> u32 {
    if k == 0 {
        8
    } else if k == 1 {
        10
    } else {
        12
    }
}

/// The dropdown entry that shows gamut mode `mode` (any other mode shows
/// the first entry).
pub open spec fn gamut_selection_spec(mode: Seq<char>) -> nat {
    if mode == "dci-p3"@ {
        1
    } else if mode == "srgb"@ {
        2
    } else {
        0
    }
}

/// The dropdown entry that shows bit depth `bpc` (any other depth shows
/// the middle entry).
pub open spec fn bpc_selection_spec(bpc: u32) -> nat {
    if bpc == 8 {
        0
    } else if bpc == 12 {
        2
    } else {
        1
    }
}

pub open spec fn min_index(i: usize) -> nat {
    if i < 2 {
        i as nat
    } else {
        2
    }
}

/// The arguments of the calibration overlay showing pattern `p`.
pub open spec fn pattern_args_spec(p: CalibPattern) -> Seq<Seq<char>> {
    seq![HDR_CAL@, pattern_arg(p)]
}

/// The state after message `m`.
pub open spec fn next_state(s: PanelView, m: Message) -> PanelView {
    match m {
        Message::HdrToggle(on) => PanelView { hdr_enabled: on, ..s },
        Message::SdrNits(v) => PanelView { conf: HdrConfView { sdr_nits: v, ..s.conf }, ..s },
        Message::PeakNits(v) => PanelView { conf: HdrConfView { peak_nits: v, ..s.conf }, ..s },
        Message::Gamut(v) => PanelView { conf: HdrConfView { gamut: v, ..s.conf }, ..s },
        Message::GamutMode(i) => PanelView {
            conf: HdrConfView { gamut_mode: gamut_mode_name(min_index(i)), ..s.conf },
            ..s
        },
        Message::BitDepth(i) => PanelView {
            conf: HdrConfView { max_bpc: bpc_value(min_index(i)), ..s.conf },
            ..s
        },
        Message::Apply => PanelView { status: Some("Applying…"@), ..s },
        Message::Reset => PanelView { hdr_enabled: false, status: Some("Resetting…"@), ..s },
        Message::Applied(Ok(())) => PanelView { status: Some("Applied ✓"@), ..s },
        Message::Applied(Err(e)) => PanelView { status: Some("Error: "@ + e@), ..s },
        Message::ShowCalPat(_) => PanelView { calibration_open: false, ..s },
        Message::CalibrateHdr => PanelView { calibration_open: false, ..s },
        Message::CloseCalPat => PanelView { calibration_open: false, ..s },
    }
}

/// The outside work that message `m` asks for in state `s`.
pub open spec fn action_spec(s: PanelView, m: Message) -> ActionView {
    match m {
        Message::HdrToggle(on) => if on {
            ActionView::SaveAndApply(s.conf)
        } else {
            ActionView::ResetHdr
        },
        Message::Apply => ActionView::SaveAndApply(s.conf),
        Message::Reset => ActionView::ResetHdr,
        Message::ShowCalPat(p) => ActionView::LaunchCalibration(pattern_args_spec(p)),
        Message::CalibrateHdr => ActionView::LaunchCalibration(calibrate_args_spec(s.conf)),
        Message::CloseCalPat => ActionView::CloseCalibration,
        _ => ActionView::Nothing,
    }
}

/// The gamut mode of dropdown entry `i`.
pub fn gamut_mode_for(i: usize) -> (r: String)
    ensures
        r@ == gamut_mode_name(min_index(i)),
{
    if i == 0 {
        String::from_str("bt2020")
    } else if i == 1 {
        String::from_str("dci-p3")
    } else {
        String::from_str("srgb")
    }
}

/// The bit depth of dropdown entry `i`.
pub fn bpc_for(i: usize) -> (r: u32)
    ensures
        r == bpc_value(min_index(i)),
{
    if i == 0 {
        8
    } else if i == 1 {
        10
    } else {
        12
    }
}

/// The dropdown entry that shows gamut mode `mode`.
pub fn gamut_selection(mode: &str) -> (r: usize)
    ensures
        r == gamut_selection_spec(mode@),
{
    let chars = chars_of(mode);
    if range_equals(&chars, 0, chars.len(), "dci-p3") {
        assert(chars@.subrange(0, chars@.len() as int) =~= chars@);
        1
    } else if range_equals(&chars, 0, chars.len(), "srgb") {
        assert(chars@.subrange(0, chars@.len() as int) =~= chars@);
        2
    } else {
        assert(chars@.subrange(0, chars@.len() as int) =~= chars@);
        0
    }
}

/// The dropdown entry that shows bit depth `bpc`.
pub fn bpc_selection(bpc: u32) -> (r: usize)
    ensures
        r == bpc_selection_spec(bpc),
{
    if bpc == 8 {
        0
    } else if bpc == 12 {
        2
    } else {
        1
    }
}

/// The arguments of the calibration overlay showing pattern `p`.
pub fn pattern_args(p: CalibPattern) -> (r: Vec<String>)
    ensures
        views(r@) == pattern_args_spec(p),
{
    let mut v: Vec<String> = Vec::new();
    v.push(HDR_CAL.to_owned());
    v.push(p.arg().to_owned());
    assert(views(v@) =~= pattern_args_spec(p));
    v
}

impl PanelState {
    /// The panel as it starts: the saved settings, whether the HDR service
    /// runs, and the connected display if one was found.
    pub fn new(conf: HdrConf, hdr_enabled: bool, display: Option<DisplayInfo>) -> (r: PanelState)
        ensures
            r.conf@ == conf@,
            r.hdr_enabled == hdr_enabled,
            r@.display == (match display {
                Some(d) => Some(d@),
                None => None::<DisplayInfoView>,
            }),
            r.status is None,
            !r.calibration_open,
    {
        PanelState { conf, hdr_enabled, display, status: None, calibration_open: false }
    }

    /// Handles a message: the new state, and the outside work to do.
    pub fn update(&mut self, msg: Message) -> (a: Action)
        ensures
            final(self)@ == next_state(old(self)@, msg),
            a@ == action_spec(old(self)@, msg),
    {
        match msg {
            Message::HdrToggle(on) => {
                self.hdr_enabled = on;
                if on {
                    Action::SaveAndApply(self.conf.snapshot())
                } else {
                    Action::ResetHdr
                }
            },
            Message::SdrNits(v) => {
                self.conf.sdr_nits = v;
                Action::Nothing
            },
            Message::PeakNits(v) => {
                self.conf.peak_nits = v;
                Action::Nothing
            },
            Message::Gamut(v) => {
                self.conf.gamut = v;
                Action::Nothing
            },
            Message::GamutMode(i) => {
                self.conf.gamut_mode = gamut_mode_for(i);
                Action::Nothing
            },
            Message::BitDepth(i) => {
                self.conf.max_bpc = bpc_for(i);
                Action::Nothing
            },
            Message::Apply => {
                self.status = Some(String::from_str("Applying…"));
                Action::SaveAndApply(self.conf.snapshot())
            },
            Message::Reset => {
                self.hdr_enabled = false;
                self.status = Some(String::from_str("Resetting…"));
                Action::ResetHdr
            },
            Message::Applied(Ok(())) => {
                self.status = Some(String::from_str("Applied ✓"));
                Action::Nothing
            },
            Message::Applied(Err(e)) => {
                self.status = Some(String::from_str("Error: ").concat(e.as_str()));
                Action::Nothing
            },
            Message::ShowCalPat(p) => {
                self.calibration_open = false;
                Action::LaunchCalibration(pattern_args(p))
            },
            Message::CalibrateHdr => {
                self.calibration_open = false;
                Action::LaunchCalibration(calibrate_args(&self.conf))
            },
            Message::CloseCalPat => {
                self.calibration_open = false;
                Action::CloseCalibration
            },
        }
    }

    /// Records how starting the calibration overlay went: on success the
    /// window is open; on failure the status shows `hdr-cal: ` and the error.
    pub fn calibration_started(&mut self, result: Result<(), String>)
        ensures
            match result {
                Ok(()) => final(self)@ == PanelView { calibration_open: true, ..old(self)@ },
                Err(e) => final(self)@ == PanelView {
                    status: Some("hdr-cal: "@ + e@),
                    ..old(self)@
                },
            },
    {
        match result {
            Ok(()) => {
                self.calibration_open = true;
            },
            Err(e) => {
                self.status = Some(String::from_str("hdr-cal: ").concat(e.as_str()));
            },
        }
    }
}

/// Choosing dropdown entry `i` of the gamut modes makes the dropdown show
/// entry `min(i, 2)`.
pub proof fn lemma_gamut_choice_shown(s: PanelView, i: usize)
    ensures
        gamut_selection_spec(next_state(s, Message::GamutMode(i)).conf.gamut_mode) == min_index(i),
{
    reveal_strlit("bt2020");
    reveal_strlit("dci-p3");
    reveal_strlit("srgb");
    assert("bt2020"@ != "dci-p3"@) by {
        assert("bt2020"@[0] != "dci-p3"@[0]);
    }
    assert("bt2020"@ != "srgb"@) by {
        assert("bt2020"@.len() != "srgb"@.len());
    }
}

/// Choosing dropdown entry `i` of the bit depths makes the dropdown show
/// entry `min(i, 2)`.
pub proof fn lemma_bpc_choice_shown(s: PanelView, i: usize)
    ensures
        bpc_selection_spec(next_state(s, Message::BitDepth(i)).conf.max_bpc) == min_index(i),
{
}

/// A slider or dropdown message changes one setting and nothing else, and
/// asks for no outside work: settings take effect only on Apply or on
/// turning HDR on.
pub proof fn lemma_edits_are_local(s: PanelView, m: Message)
    requires
        m matches Message::SdrNits(_) || m matches Message::PeakNits(_) || m matches Message::Gamut(_)
            || m matches Message::GamutMode(_) || m matches Message::BitDepth(_),
    ensures
        next_state(s, m).hdr_enabled == s.hdr_enabled,
        next_state(s, m).status == s.status,
        next_state(s, m).calibration_open == s.calibration_open,
        action_spec(s, m) == ActionView::Nothing,
{
}

/// Whatever the state, turning HDR on sends exactly the settings shown,
/// and turning it off or resetting asks for the reset.
pub proof fn lemma_toggle_sends_current(s: PanelView, on: bool)
    ensures
        next_state(s, Message::HdrToggle(on)).hdr_enabled == on,
        on ==> action_spec(s, Message::HdrToggle(on)) == ActionView::SaveAndApply(s.conf),
        !on ==> action_spec(s, Message::HdrToggle(on)) == ActionView::ResetHdr,
        !next_state(s, Message::Reset).hdr_enabled,
{
}

/// Apply saves and applies exactly the settings shown, whatever they are,
/// and reports that it is applying.
pub proof fn lemma_apply_sends_current(s: PanelView)
    ensures
        action_spec(s, Message::Apply) == ActionView::SaveAndApply(s.conf),
        next_state(s, Message::Apply).conf == s.conf,
        next_state(s, Message::Apply).status == Some("Applying…"@),
{
}

/// An edit followed by Apply sends the edited settings: after moving the
/// SDR slider to `v`, Apply saves settings whose SDR white is `v` and whose
/// other values are those shown before.
pub proof fn lemma_edit_then_apply(s: PanelView, v: u32)
    ensures
        action_spec(next_state(s, Message::SdrNits(v)), Message::Apply) == ActionView::SaveAndApply(
            HdrConfView { sdr_nits: v, ..s.conf },
        ),
{
}

/// The text of a capability badge: the label, then ` ✓` or ` —`.
pub open spec fn capability_text_spec(label: Seq<char>, ok: bool) -> Seq<char> {
    if ok {
        label + " ✓"@
    } else {
        label + " —"@
    }
}

/// The text of a capability badge.
pub fn capability_text(label: &str, ok: bool) -> (r: String)
    ensures
        r@ == capability_text_spec(label@, ok),
{
    if ok {
        String::from_str(label).concat(" ✓")
    } else {
        String::from_str(label).concat(" —")
    }
}

/// The interface a display is connected by: its HDMI generation, else its
/// DisplayPort version, else `?`.
pub open spec fn interface_label_spec(d: DisplayInfoView) -> Seq<char> {
    match d.hdmi_ver {
        Some(h) => h,
        None => match d.dp_ver {
            Some(p) => p,
            None => "?"@,
        },
    }
}

/// The interface a display is connected by.
pub fn interface_label(d: &DisplayInfo) -> (r: String)
    ensures
        r@ == interface_label_spec(d@),
{
    match &d.hdmi_ver {
        Some(h) => h.clone(),
        None => match &d.dp_ver {
            Some(p) => p.clone(),
            None => String::from_str("?"),
        },
    }
}

/// The description line of the display entry.
pub open spec fn display_description_spec(iface: Seq<char>, peak_nits: u32) -> Seq<char> {
    if peak_nits > 0 {
        iface + " · EDID peak "@ + decimal(peak_nits as nat) + " nits"@
    } else {
        iface + " · peak luminance not specified in EDID"@
    }
}

/// The description line of the display entry, from the interface label and
/// the EDID peak luminance in nits (0 when the EDID gives none).
pub fn display_description(iface: &str, peak_nits: u32) -> (r: String)
    ensures
        r@ == display_description_spec(iface@, peak_nits),
{
    if peak_nits > 0 {
        let n = decimal_string(peak_nits);
        String::from_str(iface).concat(" · EDID peak ").concat(n.as_str()).concat(" nits")
    } else {
        String::from_str(iface).concat(" · peak luminance not specified in EDID")
    }
}

/// A luminance value as the sliders show it, `N nits`.
pub fn nits_text(n: u32) -> (r: String)
    ensures
        r@ == decimal(n as nat) + " nits"@,
{
    decimal_string(n).concat(" nits")
}

/// A gamut expansion as its slider shows it, `N%`.
pub fn percent_text(n: u32) -> (r: String)
    ensures
        r@ == decimal(n as nat) + "%"@,
{
    decimal_string(n).concat("%")
}

} // verus!

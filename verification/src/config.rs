use vstd::prelude::*;

use crate::text::{is_ws, is_digit, all_digits, lemma_decimal_digits, lemma_decimal_roundtrip, lemma_find_char_contains, trim_start, trim_end, chars_of, decimal, decimal_string, find_char, find_char_in, parse_u32_range, parse_u32_spec, range_equals, trim, trim_bounds};

verus! {

/// The helper binary that saves the settings and applies them to the display.
pub const BIN: &'static str = "/usr/local/bin/kms-hdr";

/// The interactive calibration overlay.
pub const HDR_CAL: &'static str = "/usr/local/lib/cosmic-hdr/hdr-cal.py";

/// The interpreter that runs the calibration overlay.
pub const CAL_PROGRAM: &'static str = "python3";

/// The program that runs the helper binary with privileges.
pub const PRIV_PROGRAM: &'static str = "pkexec";

/// Where the helper binary keeps the saved settings.
pub const CONF_PATH: &'static str = "/etc/kms-hdr.conf";

/// The HDR pipeline settings.
#[derive(Debug, Clone)]
pub struct HdrConf {
    pub sdr_nits: u32,
    pub peak_nits: u32,
    pub gamut: u32,
    pub max_bpc: u32,
    pub gamut_mode: String,
}

/// The settings as plain values.
pub struct HdrConfView {
    pub sdr_nits: u32,
    pub peak_nits: u32,
    pub gamut: u32,
    pub max_bpc: u32,
    pub gamut_mode: Seq<char>,
}

impl View for HdrConf {
    type V = HdrConfView;

    open spec fn view(&self) -> HdrConfView {
        HdrConfView {
            sdr_nits: self.sdr_nits,
            peak_nits: self.peak_nits,
            gamut: self.gamut,
            max_bpc: self.max_bpc,
            gamut_mode: self.gamut_mode@,
        }
    }
}

/// The settings used where the configuration file says nothing.
pub open spec fn default_conf() -> HdrConfView {
    HdrConfView {
        sdr_nits: 203,
        peak_nits: 800,
        gamut: 100,
        max_bpc: 10,
        gamut_mode: "bt2020"@,
    }
}

impl Default for HdrConf {
    fn default() -> (r: Self)
        ensures
            r@ == default_conf(),
    {
        HdrConf {
            sdr_nits: 203,
            peak_nits: 800,
            gamut: 100,
            max_bpc: 10,
            gamut_mode: String::from_str("bt2020"),
        }
    }
}

impl HdrConf {
    /// A copy of the settings.
    pub fn snapshot(&self) -> (r: HdrConf)
        ensures
            r@ == self@,
    {
        HdrConf {
            sdr_nits: self.sdr_nits,
            peak_nits: self.peak_nits,
            gamut: self.gamut,
            max_bpc: self.max_bpc,
            gamut_mode: self.gamut_mode.clone(),
        }
    }
}

/// The effect of one `KEY=VALUE` line of the configuration file: the line is
/// split at its first `=`, key and value are trimmed; a numeric key takes
/// the value only when it reads as an unsigned 32-bit integer; a line
/// without `=`, or with another key, changes nothing.
pub open spec fn apply_line(c: HdrConfView, line: Seq<char>) -> HdrConfView {
    let q = find_char(line, '=');
    if q >= line.len() {
        c
    } else {
        let key = trim(line.take(q as int));
        let val = trim(line.skip(q + 1 as int));
        if key == "SDR_NITS"@ {
            match parse_u32_spec(val) {
                Some(n) => HdrConfView { sdr_nits: n, ..c },
                None => c,
            }
        } else if key == "PEAK_NITS"@ {
            match parse_u32_spec(val) {
                Some(n) => HdrConfView { peak_nits: n, ..c },
                None => c,
            }
        } else if key == "GAMUT"@ {
            match parse_u32_spec(val) {
                Some(n) => HdrConfView { gamut: n, ..c },
                None => c,
            }
        } else if key == "MAX_BPC"@ {
            match parse_u32_spec(val) {
                Some(n) => HdrConfView { max_bpc: n, ..c },
                None => c,
            }
        } else if key == "GAMUT_MODE"@ {
            HdrConfView { gamut_mode: val, ..c }
        } else {
            c
        }
    }
}

/// The effect of a text on settings `c`: its lines, split at line feeds, in
/// order. (A carriage return before a line feed ends up in a trimmed key or
/// value, and a last empty piece holds no `=`, so neither changes anything.)
pub open spec fn apply_text(c: HdrConfView, s: Seq<char>) -> HdrConfView
    decreases s.len(),
{
    let k = find_char(s, '\n');
    if k >= s.len() {
        apply_line(c, s)
    } else {
        apply_text(apply_line(c, s.take(k as int)), s.skip(k + 1 as int))
    }
}

/// The settings that a configuration file with text `s` gives.
pub open spec fn conf_from_text(s: Seq<char>) -> HdrConfView {
    apply_text(default_conf(), s)
}

/// Applies the line `chars[lo..hi]` of `text` to `conf`.
fn apply_line_exec(conf: &mut HdrConf, text: &str, chars: &Vec<char>, lo: usize, hi: usize)
    requires
        chars@ == text@,
        lo <= hi <= chars@.len(),
    ensures
        final(conf)@ == apply_line(old(conf)@, chars@.subrange(lo as int, hi as int)),
{
    let ghost line = chars@.subrange(lo as int, hi as int);
    let q = find_char_in(chars, lo, hi, '=');
    if q == hi {
        return;
    }
    assert(line.take(q - lo) =~= chars@.subrange(lo as int, q as int));
    assert(line.skip(q - lo + 1) =~= chars@.subrange(q + 1, hi as int));
    let (klo, khi) = trim_bounds(chars, lo, q);
    let (vlo, vhi) = trim_bounds(chars, q + 1, hi);
    if range_equals(chars, klo, khi, "SDR_NITS") {
        if let Some(n) = parse_u32_range(chars, vlo, vhi) {
            conf.sdr_nits = n;
        }
    } else if range_equals(chars, klo, khi, "PEAK_NITS") {
        if let Some(n) = parse_u32_range(chars, vlo, vhi) {
            conf.peak_nits = n;
        }
    } else if range_equals(chars, klo, khi, "GAMUT") {
        if let Some(n) = parse_u32_range(chars, vlo, vhi) {
            conf.gamut = n;
        }
    } else if range_equals(chars, klo, khi, "MAX_BPC") {
        if let Some(n) = parse_u32_range(chars, vlo, vhi) {
            conf.max_bpc = n;
        }
    } else if range_equals(chars, klo, khi, "GAMUT_MODE") {
        conf.gamut_mode = text.substring_char(vlo, vhi).to_owned();
    }
}

/// Reads the settings from the text of a configuration file: the defaults,
/// then each line in order (see `apply_line`), so that a later line wins.
pub fn parse_conf(text: &str) -> (r: HdrConf)
    ensures
        r@ == conf_from_text(text@),
{
    let chars = chars_of(text);
    let n = chars.len();
    let mut conf = HdrConf::default();
    let mut pos: usize = 0;
    assert(chars@.skip(0) =~= chars@);
    loop
        invariant
            chars@ == text@,
            n == chars@.len(),
            pos <= n,
            conf_from_text(text@) == apply_text(conf@, chars@.skip(pos as int)),
        decreases n - pos,
    {
        let ghost rest = chars@.skip(pos as int);
        let k = find_char_in(&chars, pos, n, '\n');
        assert(chars@.subrange(pos as int, n as int) =~= rest);
        assert(rest.take(k - pos) =~= chars@.subrange(pos as int, k as int));
        apply_line_exec(&mut conf, text, &chars, pos, k);
        if k == n {
            return conf;
        }
        assert(rest.skip(k - pos + 1) =~= chars@.skip(k + 1));
        pos = k + 1;
    }
}

proof fn lemma_find_char_concat(x: Seq<char>, y: Seq<char>, c: char)
    ensures
        find_char(x + y, c) == if find_char(x, c) < x.len() {
            find_char(x, c)
        } else {
            x.len() + find_char(y, c)
        },
    decreases x.len(),
{
    if x.len() == 0 {
        assert(x + y =~= y);
    } else {
        assert((x + y)[0] == x[0]);
        if x[0] != c {
            assert((x + y).drop_first() =~= x.drop_first() + y);
            lemma_find_char_concat(x.drop_first(), y, c);
        }
    }
}

/// A text with no settings lines leaves the defaults.
pub proof fn lemma_empty_text_gives_defaults()
    ensures
        conf_from_text(Seq::<char>::empty()) == default_conf(),
{
}

/// Lines are applied in order, so a later line overrides an earlier one:
/// reading the text `a`, a line feed, then `b` gives what `b` makes of the
/// settings that `a` gives.
pub proof fn lemma_text_concat(c: HdrConfView, a: Seq<char>, b: Seq<char>)
    ensures
        apply_text(c, a + seq!['\n'] + b) == apply_text(apply_text(c, a), b),
    decreases a.len(),
{
    let whole = a + seq!['\n'] + b;
    let k = find_char(a, '\n');
    lemma_find_char_concat(a, seq!['\n'] + b, '\n');
    assert(whole =~= a + (seq!['\n'] + b));
    assert(find_char(seq!['\n'] + b, '\n') == 0);
    if k >= a.len() {
        assert(whole.take(a.len() as int) =~= a);
        assert(whole.skip(a.len() + 1 as int) =~= b);
    } else {
        assert(whole.take(k as int) =~= a.take(k as int));
        assert(whole.skip(k + 1 as int) =~= a.skip(k + 1 as int) + seq!['\n'] + b);
        lemma_text_concat(apply_line(c, a.take(k as int)), a.skip(k + 1 as int), b);
    }
}

proof fn lemma_trim_plain(s: Seq<char>)
    requires
        s.len() > 0,
        !is_ws(s[0]),
        !is_ws(s.last()),
    ensures
        trim(s) == s,
{
    assert(trim_start(s) == s);
}

proof fn lemma_digit_plain(d: char)
    requires
        is_digit(d),
    ensures
        !is_ws(d),
        d != '=',
        d != '\n',
{
}

/// The parts of a line `key=value` whose key holds no `=` and whose key and
/// value neither start nor end with whitespace, and which holds no line feed.
proof fn lemma_key_value_line(c: HdrConfView, key: Seq<char>, val: Seq<char>)
    requires
        key.len() > 0,
        !key.contains('='),
        !key.contains('\n'),
        !is_ws(key[0]),
        !is_ws(key.last()),
        val.len() > 0,
        !val.contains('\n'),
        !is_ws(val[0]),
        !is_ws(val.last()),
    ensures
        ({
            let line = key + seq!['='] + val;
            &&& find_char(line, '=') == key.len()
            &&& trim(line.take(key.len() as int)) == key
            &&& trim(line.skip(key.len() + 1 as int)) == val
            &&& apply_text(c, line) == apply_line(c, line)
        }),
{
    let line = key + seq!['='] + val;
    lemma_find_char_contains(key, '=');
    lemma_find_char_concat(key, seq!['='] + val, '=');
    assert(line =~= key + (seq!['='] + val));
    assert(find_char(seq!['='] + val, '=') == 0);
    assert(line.take(key.len() as int) =~= key);
    assert(line.skip(key.len() + 1 as int) =~= val);
    lemma_trim_plain(key);
    lemma_trim_plain(val);
    lemma_find_char_contains(line, '\n');
    if line.contains('\n') {
        let j = choose|j: int| 0 <= j < line.len() && line[j] == '\n';
        if j < key.len() {
            assert(key[j] == '\n');
        } else if j > key.len() {
            assert(val[j - key.len() - 1] == '\n');
        }
    }
}

proof fn lemma_decimal_value_plain(n: u32)
    ensures
        decimal(n as nat).len() > 0,
        !decimal(n as nat).contains('\n'),
        !is_ws(decimal(n as nat)[0]),
        !is_ws(decimal(n as nat).last()),
        parse_u32_spec(decimal(n as nat)) == Some(n),
{
    let d = decimal(n as nat);
    lemma_decimal_digits(n as nat);
    lemma_decimal_roundtrip(n);
    lemma_digit_plain(d[0]);
    lemma_digit_plain(d.last());
    if d.contains('\n') {
        let j = choose|j: int| 0 <= j < d.len() && d[j] == '\n';
        lemma_digit_plain(d[j]);
    }
}

/// A line `PEAK_NITS=<n>` sets the display peak to `n`, whatever it was,
/// and changes nothing else; so does a settings file of that one line.
pub proof fn lemma_peak_nits_line(c: HdrConfView, n: u32)
    ensures
        apply_text(c, "PEAK_NITS="@ + decimal(n as nat)) == (HdrConfView { peak_nits: n, ..c }),
        conf_from_text("PEAK_NITS="@ + decimal(n as nat)).peak_nits == n,
{
    reveal_strlit("PEAK_NITS=");
    reveal_strlit("PEAK_NITS");
    reveal_strlit("SDR_NITS");
    let key = "PEAK_NITS"@;
    assert("PEAK_NITS="@ =~= key + seq!['=']);
    lemma_decimal_value_plain(n);
    assert(!key.contains('=') && !key.contains('\n')) by {
        assert(forall|j: int| 0 <= j < key.len() ==> key[j] != '=' && key[j] != '\n');
    }
    lemma_key_value_line(c, key, decimal(n as nat));
    lemma_key_value_line(default_conf(), key, decimal(n as nat));
    assert("PEAK_NITS="@ + decimal(n as nat) =~= key + seq!['='] + decimal(n as nat));
}

/// A line `SDR_NITS=<n>` sets the SDR white to `n`, whatever it was, and
/// changes nothing else.
pub proof fn lemma_sdr_nits_line(c: HdrConfView, n: u32)
    ensures
        apply_text(c, "SDR_NITS="@ + decimal(n as nat)) == (HdrConfView { sdr_nits: n, ..c }),
{
    reveal_strlit("SDR_NITS=");
    reveal_strlit("SDR_NITS");
    let key = "SDR_NITS"@;
    assert("SDR_NITS="@ =~= key + seq!['=']);
    lemma_decimal_value_plain(n);
    assert(!key.contains('=') && !key.contains('\n')) by {
        assert(forall|j: int| 0 <= j < key.len() ==> key[j] != '=' && key[j] != '\n');
    }
    lemma_key_value_line(c, key, decimal(n as nat));
    assert("SDR_NITS="@ + decimal(n as nat) =~= key + seq!['='] + decimal(n as nat));
}

/// A line `GAMUT=<n>` sets the gamut expansion to `n`, whatever it was,
/// and changes nothing else.
pub proof fn lemma_gamut_line(c: HdrConfView, n: u32)
    ensures
        apply_text(c, "GAMUT="@ + decimal(n as nat)) == (HdrConfView { gamut: n, ..c }),
{
    reveal_strlit("GAMUT=");
    reveal_strlit("GAMUT");
    reveal_strlit("SDR_NITS");
    reveal_strlit("PEAK_NITS");
    let key = "GAMUT"@;
    assert("GAMUT="@ =~= key + seq!['=']);
    lemma_decimal_value_plain(n);
    assert(!key.contains('=') && !key.contains('\n')) by {
        assert(forall|j: int| 0 <= j < key.len() ==> key[j] != '=' && key[j] != '\n');
    }
    lemma_key_value_line(c, key, decimal(n as nat));
    assert("GAMUT="@ + decimal(n as nat) =~= key + seq!['='] + decimal(n as nat));
}

/// A line `MAX_BPC=<n>` sets the bit depth to `n`, whatever it was, and
/// changes nothing else.
pub proof fn lemma_max_bpc_line(c: HdrConfView, n: u32)
    ensures
        apply_text(c, "MAX_BPC="@ + decimal(n as nat)) == (HdrConfView { max_bpc: n, ..c }),
{
    reveal_strlit("MAX_BPC=");
    reveal_strlit("MAX_BPC");
    reveal_strlit("SDR_NITS");
    reveal_strlit("PEAK_NITS");
    reveal_strlit("GAMUT");
    let key = "MAX_BPC"@;
    assert("MAX_BPC="@ =~= key + seq!['=']);
    lemma_decimal_value_plain(n);
    assert(!key.contains('=') && !key.contains('\n')) by {
        assert(forall|j: int| 0 <= j < key.len() ==> key[j] != '=' && key[j] != '\n');
    }
    lemma_key_value_line(c, key, decimal(n as nat));
    assert("MAX_BPC="@ + decimal(n as nat) =~= key + seq!['='] + decimal(n as nat));
}

/// The views of a list of strings.
pub open spec fn views(v: Seq<String>) -> Seq<Seq<char>> {
    v.map_values(|s: String| s@)
}

fn push_owned(v: &mut Vec<String>, s: &str)
    ensures
        views(final(v)@) == views(old(v)@).push(s@),
{
    v.push(s.to_owned());
    assert(views(v@) =~= views(old(v)@).push(s@));
}

fn push_number(v: &mut Vec<String>, n: u32)
    ensures
        views(final(v)@) == views(old(v)@).push(decimal(n as nat)),
{
    v.push(decimal_string(n));
    assert(views(v@) =~= views(old(v)@).push(decimal(n as nat)));
}

/// The setting flags and values that both helpers take, in order.
pub open spec fn setting_args(c: HdrConfView) -> Seq<Seq<char>> {
    seq![
        "--sdr-nits"@,
        decimal(c.sdr_nits as nat),
        "--peak-nits"@,
        decimal(c.peak_nits as nat),
        "--gamut"@,
        decimal(c.gamut as nat),
        "--bpc"@,
        decimal(c.max_bpc as nat),
        "--gamut-mode"@,
        c.gamut_mode,
    ]
}

fn push_setting_args(v: &mut Vec<String>, c: &HdrConf)
    ensures
        views(final(v)@) == views(old(v)@) + setting_args(c@),
{
    push_owned(v, "--sdr-nits");
    push_number(v, c.sdr_nits);
    push_owned(v, "--peak-nits");
    push_number(v, c.peak_nits);
    push_owned(v, "--gamut");
    push_number(v, c.gamut);
    push_owned(v, "--bpc");
    push_number(v, c.max_bpc);
    push_owned(v, "--gamut-mode");
    push_owned(v, c.gamut_mode.as_str());
    assert(views(v@) =~= views(old(v)@) + setting_args(c@));
}

/// The arguments of the privileged helper that saves settings `c` and
/// applies them.
pub open spec fn save_args_spec(c: HdrConfView) -> Seq<Seq<char>> {
    seq![BIN@, "--save"@] + setting_args(c)
}

/// The arguments of the privileged helper that saves and applies `c`
/// (`pkexec` runs it).
pub fn save_args(c: &HdrConf) -> (r: Vec<String>)
    ensures
        views(r@) == save_args_spec(c@),
{
    let mut v: Vec<String> = Vec::new();
    push_owned(&mut v, BIN);
    push_owned(&mut v, "--save");
    push_setting_args(&mut v, c);
    assert(views(v@) =~= save_args_spec(c@));
    v
}

/// The arguments of the privileged helper that turns HDR off.
pub fn reset_args() -> (r: Vec<String>)
    ensures
        views(r@) == seq![BIN@, "reset"@],
{
    let mut v: Vec<String> = Vec::new();
    push_owned(&mut v, BIN);
    push_owned(&mut v, "reset");
    assert(views(v@) =~= seq![BIN@, "reset"@]);
    v
}

/// The arguments of the interactive calibration run with settings `c`.
pub open spec fn calibrate_args_spec(c: HdrConfView) -> Seq<Seq<char>> {
    seq![HDR_CAL@, "--calibrate"@] + setting_args(c)
}

/// The arguments of the calibration overlay in interactive mode
/// (`python3` runs it).
pub fn calibrate_args(c: &HdrConf) -> (r: Vec<String>)
    ensures
        views(r@) == calibrate_args_spec(c@),
{
    let mut v: Vec<String> = Vec::new();
    push_owned(&mut v, HDR_CAL);
    push_owned(&mut v, "--calibrate");
    push_setting_args(&mut v, c);
    assert(views(v@) =~= calibrate_args_spec(c@));
    v
}

/// Whether the output of `systemctl is-active` says that the service runs.
pub open spec fn is_active_spec(stdout: Seq<u8>) -> bool {
    stdout.len() >= 6 && stdout.take(6) == seq![0x61u8, 0x63, 0x74, 0x69, 0x76, 0x65]
}

/// Whether the standard output of `systemctl is-active` begins with
/// `active` (so `inactive` and `failed` do not count).
pub fn is_active_output(stdout: &[u8]) -> (r: bool)
    ensures
        r == is_active_spec(stdout@),
{
    if stdout.len() < 6 {
        return false;
    }
    let r = stdout[0] == 0x61 && stdout[1] == 0x63 && stdout[2] == 0x74 && stdout[3] == 0x69
        && stdout[4] == 0x76 && stdout[5] == 0x65;
    assert(r ==> stdout@.take(6) =~= seq![0x61u8, 0x63, 0x74, 0x69, 0x76, 0x65]);
    assert(stdout@.take(6) == seq![0x61u8, 0x63, 0x74, 0x69, 0x76, 0x65] ==> r) by {
        if stdout@.take(6) == seq![0x61u8, 0x63, 0x74, 0x69, 0x76, 0x65] {
            assert(stdout@.take(6)[0] == 0x61u8);
            assert(stdout@.take(6)[1] == 0x63u8);
            assert(stdout@.take(6)[2] == 0x74u8);
            assert(stdout@.take(6)[3] == 0x69u8);
            assert(stdout@.take(6)[4] == 0x76u8);
            assert(stdout@.take(6)[5] == 0x65u8);
        }
    }
    r
}

} // verus!

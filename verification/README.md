# cosmic_hdr

The verified core of an HDR display settings panel for the COSMIC desktop.

- `src/` (verified with Verus):
  - `text` — whitespace trimming, unsigned decimal parsing and formatting;
  - `config` — the `KEY=VALUE` settings file and the helper command lines;
  - `connector` — choosing the active DRM connector from a sysfs listing;
  - `edid` — decoding the monitor name and the CTA-861 capabilities of an EDID;
  - `pattern` — the calibration patterns;
  - `panel` — the panel's state, its reaction to each message, and the texts it shows.
- `app/` — the GUI program: reads sysfs and the settings file, runs the helpers,
  and draws the panel with libcosmic.
- `tests/` — tests of the library on concrete values.

//! The configuration: its text form, reading it and writing it.

use crate::table::Table;
use crate::text;
use std::sync::Arc;
use vstd::prelude::*;
use vstd::slice::slice_subrange;
use vstd::string::StringExecFns;

verus! {

/// A door station.
#[derive(Debug)]
pub struct DeviceConfig {
    pub id: String,
    pub ip: String,
    pub port: u16,
    pub userid: String,
    pub name: String,
    pub password: String,
    pub gpio: u16,
    pub btn_name: String,
}

#[derive(Debug)]
pub struct AppConfig {
    pub vtos: Vec<DeviceConfig>,
    pub listen: String,
    pub username: String,
    pub password: String,
    pub userid: String,
    pub gpio_out: String,
    pub bafa_key: String,
    pub auto_open: bool,
    pub sip_interface: String,
    pub mqtt_host: String,
    pub mqtt_user: String,
    pub mqtt_pass: String,
}

/// Why no configuration could be had.
#[derive(Debug)]
pub enum ConfigError {
    /// The file could not be read, with the reason.
    Unreadable(String),
}

#[verifier::ext_equal]
pub struct DeviceView {
    pub id: Seq<char>,
    pub ip: Seq<char>,
    pub port: u16,
    pub userid: Seq<char>,
    pub name: Seq<char>,
    pub password: Seq<char>,
    pub gpio: u16,
    pub btn_name: Seq<char>,
}

#[verifier::ext_equal]
pub struct ConfigView {
    pub vtos: Seq<DeviceView>,
    pub listen: Seq<char>,
    pub username: Seq<char>,
    pub password: Seq<char>,
    pub userid: Seq<char>,
    pub gpio_out: Seq<char>,
    pub bafa_key: Seq<char>,
    pub auto_open: bool,
    pub sip_interface: Seq<char>,
    pub mqtt_host: Seq<char>,
    pub mqtt_user: Seq<char>,
    pub mqtt_pass: Seq<char>,
}

impl View for DeviceConfig {
    type V = DeviceView;

    open spec fn view(&self) -> DeviceView {
        DeviceView {
            id: self.id@,
            ip: self.ip@,
            port: self.port,
            userid: self.userid@,
            name: self.name@,
            password: self.password@,
            gpio: self.gpio,
            btn_name: self.btn_name@,
        }
    }
}

/// The door stations as plain values.
pub open spec fn device_views(devices: Seq<DeviceConfig>) -> Seq<DeviceView> {
    Seq::new(devices.len(), |i: int| devices[i]@)
}

impl View for AppConfig {
    type V = ConfigView;

    open spec fn view(&self) -> ConfigView {
        ConfigView {
            vtos: device_views(self.vtos@),
            listen: self.listen@,
            username: self.username@,
            password: self.password@,
            userid: self.userid@,
            gpio_out: self.gpio_out@,
            bafa_key: self.bafa_key@,
            auto_open: self.auto_open,
            sip_interface: self.sip_interface@,
            mqtt_host: self.mqtt_host@,
            mqtt_user: self.mqtt_user@,
            mqtt_pass: self.mqtt_pass@,
        }
    }
}

/// The configuration in which nothing is set.
pub open spec fn blank() -> ConfigView {
    ConfigView {
        vtos: Seq::empty(),
        listen: Seq::empty(),
        username: Seq::empty(),
        password: Seq::empty(),
        userid: Seq::empty(),
        gpio_out: Seq::empty(),
        bafa_key: Seq::empty(),
        auto_open: false,
        sip_interface: Seq::empty(),
        mqtt_host: Seq::empty(),
        mqtt_user: Seq::empty(),
        mqtt_pass: Seq::empty(),
    }
}

/// What one line of the text form says.
pub enum LineView {
    /// Nothing: blank, a comment, or no line of the format.
    Nothing,
    /// A section begins.
    Section(Seq<char>),
    /// An option of the current section, with its value.
    Setting(Seq<char>, Seq<char>),
}

pub open spec fn read_line(raw: Seq<char>) -> LineView {
    let line = text::trim(raw);
    if line.len() == 0 || line[0] == '#' {
        LineView::Nothing
    } else if "config"@.is_prefix_of(line) {
        LineView::Section(text::remove_all(line, "config "@))
    } else if "option"@.is_prefix_of(line) {
        match text::split_at_first(line, ' ') {
            Some((_, rest)) => match text::split_at_first(rest, ' ') {
                Some((key, value)) => LineView::Setting(key, text::strip(value, '\'')),
                None => LineView::Nothing,
            },
            None => LineView::Nothing,
        }
    } else {
        LineView::Nothing
    }
}

/// How far the text has been read: the section that is open, its options so far, and what the
/// sections before it have set.
pub struct Reading {
    pub section: Option<Seq<char>>,
    pub options: Map<Seq<char>, Seq<char>>,
    pub config: ConfigView,
}

pub open spec fn start() -> Reading {
    Reading { section: None, options: Map::empty(), config: blank() }
}

/// The value of an option; empty where it is not set.
pub open spec fn option_of(options: Map<Seq<char>, Seq<char>>, key: Seq<char>) -> Seq<char> {
    if options.contains_key(key) {
        options[key]
    } else {
        Seq::empty()
    }
}

/// The number that an option holds; 0 where it holds none.
pub open spec fn number_of(options: Map<Seq<char>, Seq<char>>, key: Seq<char>) -> u16 {
    match text::number(option_of(options, key)) {
        Some(n) => n,
        None => 0,
    }
}

pub open spec fn is_device(section: Seq<char>) -> bool {
    "dahuavto_device"@.is_prefix_of(section)
}

/// A door station's section holds its id as the second word.
pub open spec fn named(section: Seq<char>) -> bool {
    is_device(section) ==> text::words(section).len() >= 2
}

pub open spec fn device_of(section: Seq<char>, options: Map<Seq<char>, Seq<char>>) -> DeviceView {
    DeviceView {
        id: text::words(section)[1],
        ip: option_of(options, "ip"@),
        port: number_of(options, "port"@),
        userid: option_of(options, "userid"@),
        name: option_of(options, "name"@),
        password: option_of(options, "password"@),
        gpio: number_of(options, "gpio"@),
        btn_name: option_of(options, "btn_name"@),
    }
}

pub open spec fn main_of(options: Map<Seq<char>, Seq<char>>, vtos: Seq<DeviceView>) -> ConfigView {
    ConfigView {
        vtos,
        listen: option_of(options, "listen"@),
        username: option_of(options, "username"@),
        password: option_of(options, "password"@),
        userid: option_of(options, "userid"@),
        gpio_out: option_of(options, "gpio_out"@),
        bafa_key: option_of(options, "bafa_key"@),
        auto_open: option_of(options, "auto_open"@) == "true"@,
        sip_interface: option_of(options, "sip_interface"@),
        mqtt_host: option_of(options, "mqtt_host"@),
        mqtt_user: option_of(options, "mqtt_user"@),
        mqtt_pass: option_of(options, "mqtt_pass"@),
    }
}

/// What a section with these options makes of the configuration.
pub open spec fn apply_section(
    section: Seq<char>,
    options: Map<Seq<char>, Seq<char>>,
    config: ConfigView,
) -> ConfigView {
    if is_device(section) {
        ConfigView { vtos: config.vtos.push(device_of(section, options)), ..config }
    } else if section == "dahuavto 'main'"@ {
        main_of(options, config.vtos)
    } else {
        config
    }
}

/// The configuration once the open section has ended.
pub open spec fn closed(r: Reading) -> ConfigView {
    match r.section {
        Some(section) => apply_section(section, r.options, r.config),
        None => r.config,
    }
}

pub open spec fn step(r: Reading, raw: Seq<char>) -> Reading {
    match read_line(raw) {
        LineView::Nothing => r,
        LineView::Section(section) => Reading {
            section: Some(section),
            options: Map::empty(),
            config: closed(r),
        },
        LineView::Setting(key, value) => Reading { options: r.options.insert(key, value), ..r },
    }
}

pub open spec fn reads(r: Reading, raw: Seq<Seq<char>>) -> Reading
    decreases raw.len(),
{
    if raw.len() == 0 {
        r
    } else {
        reads(step(r, raw[0]), raw.drop_first())
    }
}

/// The configuration that a text holds.
pub open spec fn parsed(text: Seq<char>) -> ConfigView {
    closed(reads(start(), text::lines(text)))
}

/// A line that does not begin a door station's section without its id.
pub open spec fn line_named(raw: Seq<char>) -> bool {
    read_line(raw) matches LineView::Section(section) ==> named(section)
}

pub open spec fn all_named(raw: Seq<Seq<char>>) -> bool {
    forall|i: int| 0 <= i < raw.len() ==> line_named(#[trigger] raw[i])
}

/// Every door station in the text has an id.
pub open spec fn loadable(text: Seq<char>) -> bool {
    all_named(text::lines(text))
}

/// One option as a line of text.
pub open spec fn setting(name: Seq<char>, value: Seq<char>) -> Seq<char> {
    "    option "@ + name + " '"@ + value + "'\n"@
}

pub open spec fn flag(b: bool) -> Seq<char> {
    if b {
        "true"@
    } else {
        "false"@
    }
}

pub open spec fn main_text(c: ConfigView) -> Seq<char> {
    "config dahuavto 'main'\n"@ + setting("listen"@, c.listen) + setting("username"@, c.username)
        + setting("password"@, c.password) + setting("userid"@, c.userid) + setting(
        "gpio_out"@,
        c.gpio_out,
    ) + setting("bafa_key"@, c.bafa_key) + setting("auto_open"@, flag(c.auto_open)) + setting(
        "sip_interface"@,
        c.sip_interface,
    ) + setting("mqtt_host"@, c.mqtt_host) + setting("mqtt_user"@, c.mqtt_user) + setting(
        "mqtt_pass"@,
        c.mqtt_pass,
    ) + "\n"@
}

pub open spec fn device_text(d: DeviceView) -> Seq<char> {
    "config dahuavto_device "@ + d.id + "\n"@ + setting("ip"@, d.ip) + setting(
        "port"@,
        text::decimal(d.port as nat),
    ) + setting("userid"@, d.userid) + setting("name"@, d.name) + setting("password"@, d.password)
        + setting("gpio"@, text::decimal(d.gpio as nat)) + setting("btn_name"@, d.btn_name) + "\n"@
}

pub open spec fn devices_text(devices: Seq<DeviceView>) -> Seq<char>
    decreases devices.len(),
{
    if devices.len() == 0 {
        Seq::empty()
    } else {
        devices_text(devices.drop_last()) + device_text(devices.last())
    }
}

/// The text form of a configuration.
pub open spec fn rendered(c: ConfigView) -> Seq<char> {
    main_text(c) + devices_text(c.vtos)
}

/// What one line of the text form says.
enum Line {
    Nothing,
    Section(String),
    Setting(String, String),
}

impl View for Line {
    type V = LineView;

    closed spec fn view(&self) -> LineView {
        match *self {
            Line::Nothing => LineView::Nothing,
            Line::Section(section) => LineView::Section(section@),
            Line::Setting(key, value) => LineView::Setting(key@, value@),
        }
    }
}

fn line(raw: &[char]) -> (r: Line)
    ensures
        r@ == read_line(raw@),
{
    let line = text::trim_of(raw);
    let config = text::char_vec("config");
    let option = text::char_vec("option");
    if line.len() == 0 || line[0] == '#' {
        Line::Nothing
    } else if text::starts_with(line, config.as_slice()) {
        let keyword = text::char_vec("config ");
        let section = text::without(line, keyword.as_slice());
        Line::Section(text::string_of(section.as_slice()))
    } else if text::starts_with(line, option.as_slice()) {
        match text::split_once(line, ' ') {
            Some((_, rest)) => match text::split_once(rest, ' ') {
                Some((key, value)) => {
                    let value = text::strip_of(value, '\'');
                    Line::Setting(text::string_of(key), text::string_of(value))
                },
                None => Line::Nothing,
            },
            None => Line::Nothing,
        }
    } else {
        Line::Nothing
    }
}

spec fn section_view(section: Option<String>) -> Option<Seq<char>> {
    match section {
        Some(s) => Some(s@),
        None => None,
    }
}

pub proof fn lemma_reads_first(r: Reading, raw: Seq<char>, rest: Seq<Seq<char>>)
    ensures
        reads(r, seq![raw] + rest) == reads(step(r, raw), rest),
{
    assert((seq![raw] + rest).drop_first() =~= rest);
}

pub proof fn lemma_named_first(raw: Seq<char>, rest: Seq<Seq<char>>)
    ensures
        all_named(seq![raw] + rest) <==> line_named(raw) && all_named(rest),
{
    let all = seq![raw] + rest;
    if all_named(all) {
        assert(line_named(all[0]));
        assert forall|i: int| 0 <= i < rest.len() implies line_named(#[trigger] rest[i]) by {
            assert(line_named(all[i + 1]));
        }
    }
}

fn option(options: &Table<String>, key: &str) -> (r: String)
    requires
        options.wf(),
    ensures
        r@ == option_of(options@, key@),
{
    match options.get(key) {
        Some(v) => v.clone(),
        None => String::new(),
    }
}

fn option_number(options: &Table<String>, key: &str) -> (r: u16)
    requires
        options.wf(),
    ensures
        r == number_of(options@, key@),
{
    let text = option(options, key);
    let chars = text::char_vec(text.as_str());
    match text::parse_number(chars.as_slice()) {
        Some(n) => n,
        None => 0,
    }
}

fn put_setting(out: &mut String, name: &str, value: &str)
    ensures
        final(out)@ == old(out)@ + setting(name@, value@),
{
    let ghost before = out@;
    out.append("    option ");
    out.append(name);
    out.append(" '");
    out.append(value);
    out.append("'\n");
    assert(out@ =~= before + setting(name@, value@));
}

fn device_string(device: &DeviceConfig) -> (out: String)
    ensures
        out@ == device_text(device@),
{
    let port = text::decimal_string(device.port as u64);
    let gpio = text::decimal_string(device.gpio as u64);
    let mut out = "config dahuavto_device ".to_owned();
    out.append(device.id.as_str());
    out.append("\n");
    put_setting(&mut out, "ip", device.ip.as_str());
    put_setting(&mut out, "port", port.as_str());
    put_setting(&mut out, "userid", device.userid.as_str());
    put_setting(&mut out, "name", device.name.as_str());
    put_setting(&mut out, "password", device.password.as_str());
    put_setting(&mut out, "gpio", gpio.as_str());
    put_setting(&mut out, "btn_name", device.btn_name.as_str());
    out.append("\n");
    out
}

fn main_string(config: &AppConfig) -> (out: String)
    ensures
        out@ == main_text(config@),
{
    let auto_open = if config.auto_open {
        "true"
    } else {
        "false"
    };
    let mut out = "config dahuavto 'main'\n".to_owned();
    put_setting(&mut out, "listen", config.listen.as_str());
    put_setting(&mut out, "username", config.username.as_str());
    put_setting(&mut out, "password", config.password.as_str());
    put_setting(&mut out, "userid", config.userid.as_str());
    put_setting(&mut out, "gpio_out", config.gpio_out.as_str());
    put_setting(&mut out, "bafa_key", config.bafa_key.as_str());
    put_setting(&mut out, "auto_open", auto_open);
    put_setting(&mut out, "sip_interface", config.sip_interface.as_str());
    put_setting(&mut out, "mqtt_host", config.mqtt_host.as_str());
    put_setting(&mut out, "mqtt_user", config.mqtt_user.as_str());
    put_setting(&mut out, "mqtt_pass", config.mqtt_pass.as_str());
    out.append("\n");
    out
}

proof fn lemma_devices_text_next(devices: Seq<DeviceView>, i: int)
    requires
        0 <= i < devices.len(),
    ensures
        devices_text(devices.take(i + 1)) == devices_text(devices.take(i)) + device_text(
            devices[i],
        ),
{
    assert(devices.take(i + 1).drop_last() =~= devices.take(i));
}

pub proof fn lemma_assoc(a: Seq<char>, b: Seq<char>, c: Seq<char>)
    ensures
        (a + b) + c == a + (b + c),
{
    assert((a + b) + c =~= a + (b + c));
}

fn put_devices(out: &mut String, vtos: &Vec<DeviceConfig>)
    ensures
        final(out)@ == old(out)@ + devices_text(device_views(vtos@)),
{
    let ghost before = out@;
    let ghost devices = device_views(vtos@);
    assert(before =~= before + devices_text(devices.take(0)));
    let mut i: usize = 0;
    while i < vtos.len()
        invariant
            i <= vtos.len(),
            devices == device_views(vtos@),
            out@ == before + devices_text(devices.take(i as int)),
        decreases vtos.len() - i,
    {
        let device = device_string(&vtos[i]);
        out.append(device.as_str());
        proof {
            lemma_devices_text_next(devices, i as int);
            lemma_assoc(
                before,
                devices_text(devices.take(i as int)),
                device_text(devices[i as int]),
            );
        }
        i += 1;
    }
    assert(devices.take(i as int) =~= devices);
}

impl Clone for DeviceConfig {
    fn clone(&self) -> (r: Self)
        ensures
            r@ == self@,
    {
        DeviceConfig {
            id: self.id.clone(),
            ip: self.ip.clone(),
            port: self.port,
            userid: self.userid.clone(),
            name: self.name.clone(),
            password: self.password.clone(),
            gpio: self.gpio,
            btn_name: self.btn_name.clone(),
        }
    }
}

fn clone_devices(devices: &Vec<DeviceConfig>) -> (r: Vec<DeviceConfig>)
    ensures
        device_views(r@) == device_views(devices@),
{
    let mut r: Vec<DeviceConfig> = Vec::new();
    let mut i: usize = 0;
    while i < devices.len()
        invariant
            i <= devices.len(),
            r@.len() == i,
            forall|k: int| 0 <= k < i ==> (#[trigger] r@[k])@ == devices@[k]@,
        decreases devices.len() - i,
    {
        r.push(devices[i].clone());
        i += 1;
    }
    assert(device_views(r@) =~= device_views(devices@));
    r
}

impl Clone for AppConfig {
    fn clone(&self) -> (r: Self)
        ensures
            r@ == self@,
    {
        AppConfig {
            vtos: clone_devices(&self.vtos),
            listen: self.listen.clone(),
            username: self.username.clone(),
            password: self.password.clone(),
            userid: self.userid.clone(),
            gpio_out: self.gpio_out.clone(),
            bafa_key: self.bafa_key.clone(),
            auto_open: self.auto_open,
            sip_interface: self.sip_interface.clone(),
            mqtt_host: self.mqtt_host.clone(),
            mqtt_user: self.mqtt_user.clone(),
            mqtt_pass: self.mqtt_pass.clone(),
        }
    }
}

impl AppConfig {
    fn blank() -> (r: Self)
        ensures
            r@ == blank(),
    {
        let r = AppConfig {
            vtos: Vec::new(),
            listen: String::new(),
            username: String::new(),
            password: String::new(),
            userid: String::new(),
            gpio_out: String::new(),
            bafa_key: String::new(),
            auto_open: false,
            sip_interface: String::new(),
            mqtt_host: String::new(),
            mqtt_user: String::new(),
            mqtt_pass: String::new(),
        };
        assert(r@.vtos =~= Seq::<DeviceView>::empty());
        r
    }

    /// Takes over what a section with these options says.
    pub fn parse_section(section: &str, options: &Table<String>, config: &mut AppConfig)
        requires
            options.wf(),
            named(section@),
        ensures
            final(config)@ == apply_section(section@, options@, old(config)@),
    {
        let chars = text::char_vec(section);
        let device = text::char_vec("dahuavto_device");
        if text::starts_with(chars.as_slice(), device.as_slice()) {
            let id = match text::second_word(chars.as_slice()) {
                Some(id) => id,
                None => String::new(),
            };
            let ghost before = config@;
            let device = DeviceConfig {
                id,
                ip: option(options, "ip"),
                port: option_number(options, "port"),
                userid: option(options, "userid"),
                name: option(options, "name"),
                password: option(options, "password"),
                gpio: option_number(options, "gpio"),
                btn_name: option(options, "btn_name"),
            };
            let ghost view = device@;
            config.vtos.push(device);
            assert(config@.vtos =~= before.vtos.push(view));
        } else if text::text_eq(section, "dahuavto 'main'") {
            config.listen = option(options, "listen");
            config.username = option(options, "username");
            config.password = option(options, "password");
            config.userid = option(options, "userid");
            config.gpio_out = option(options, "gpio_out");
            config.bafa_key = option(options, "bafa_key");
            let auto_open = option(options, "auto_open");
            config.auto_open = text::text_eq(auto_open.as_str(), "true");
            config.sip_interface = option(options, "sip_interface");
            config.mqtt_host = option(options, "mqtt_host");
            config.mqtt_user = option(options, "mqtt_user");
            config.mqtt_pass = option(options, "mqtt_pass");
        }
    }

    /// Whether every door station in the text has an id.
    pub fn is_loadable(contents: &str) -> (r: bool)
        ensures
            r == loadable(contents@),
    {
        let chars = text::char_vec(contents);
        let all = chars.as_slice();
        let mut at: usize = 0;
        assert(all@.skip(0) =~= all@);
        loop
            invariant
                at <= all@.len(),
                all@ == contents@,
                loadable(contents@) == all_named(text::lines(all@.skip(at as int))),
            decreases all@.len() - at,
        {
            let rest = slice_subrange(all, at, all.len());
            assert(rest@ =~= all@.skip(at as int));
            let n = text::find_in(rest, '\n');
            let raw = slice_subrange(rest, 0, n);
            let named_line = match line(raw) {
                Line::Section(section) => {
                    let chars = text::char_vec(section.as_str());
                    let device = text::char_vec("dahuavto_device");
                    !text::starts_with(chars.as_slice(), device.as_slice()) || text::second_word(
                        chars.as_slice(),
                    ).is_some()
                },
                _ => true,
            };
            assert(named_line == line_named(raw@));
            assert(raw@ =~= rest@.take(n as int));
            if n >= rest.len() {
                proof {
                    assert(raw@ =~= rest@);
                    lemma_named_first(raw@, Seq::empty());
                    assert(seq![raw@] + Seq::<Seq<char>>::empty() =~= seq![raw@]);
                }
                return named_line;
            }
            proof {
                lemma_named_first(raw@, text::lines(rest@.skip(n + 1)));
                assert(rest@.skip(n + 1) =~= all@.skip(at + n + 1));
            }
            if !named_line {
                return false;
            }
            at = at + n + 1;
        }
    }

    /// The configuration that a text holds. No text is rejected.
    pub fn from_str(contents: &str) -> (r: Result<Arc<AppConfig>, ConfigError>)
        requires
            loadable(contents@),
        ensures
            r matches Ok(config) && config@ == parsed(contents@),
    {
        let chars = text::char_vec(contents);
        let all = chars.as_slice();
        let mut config = AppConfig::blank();
        let mut section: Option<String> = None;
        let mut options: Table<String> = Table::new();
        let mut at: usize = 0;
        let mut more = true;
        assert(all@.skip(0) =~= all@);
        while more
            invariant
                at <= all@.len(),
                all@ == contents@,
                options.wf(),
                section matches Some(s) ==> named(s@),
                more ==> all_named(text::lines(all@.skip(at as int))),
                reads(start(), text::lines(contents@)) == (if more {
                    reads(
                        Reading {
                            section: section_view(section),
                            options: options@,
                            config: config@,
                        },
                        text::lines(all@.skip(at as int)),
                    )
                } else {
                    Reading { section: section_view(section), options: options@, config: config@ }
                }),
            decreases all@.len() - at + (if more {
                1int
            } else {
                0int
            }),
        {
            let rest = slice_subrange(all, at, all.len());
            assert(rest@ =~= all@.skip(at as int));
            let n = text::find_in(rest, '\n');
            let raw = slice_subrange(rest, 0, n);
            let ghost before = Reading {
                section: section_view(section),
                options: options@,
                config: config@,
            };
            let ghost following = if n < rest@.len() {
                text::lines(rest@.skip(n + 1))
            } else {
                Seq::empty()
            };
            proof {
                assert(raw@ =~= rest@.take(n as int));
                if n >= rest@.len() {
                    assert(raw@ =~= rest@);
                    assert(seq![raw@] + Seq::<Seq<char>>::empty() =~= seq![raw@]);
                } else {
                    assert(rest@.skip(n + 1) =~= all@.skip(at + n + 1));
                }
                assert(text::lines(rest@) == seq![raw@] + following);
                lemma_named_first(raw@, following);
                lemma_reads_first(before, raw@, following);
            }
            match line(raw) {
                Line::Nothing => {},
                Line::Section(next) => {
                    if let Some(current) = section {
                        AppConfig::parse_section(current.as_str(), &options, &mut config);
                    }
                    options.clear();
                    section = Some(next);
                },
                Line::Setting(key, value) => {
                    options.insert(key, value);
                },
            }
            assert(step(before, raw@) == Reading {
                section: section_view(section),
                options: options@,
                config: config@,
            });
            if n < rest.len() {
                at = at + n + 1;
            } else {
                more = false;
            }
        }
        if let Some(current) = section {
            AppConfig::parse_section(current.as_str(), &options, &mut config);
        }
        Ok(Arc::new(config))
    }

    /// The configuration in a file, from the outcome of reading it: its text, or why it could
    /// not be read.
    pub fn from_file(read: Result<String, String>) -> (r: Result<Arc<AppConfig>, ConfigError>)
        requires
            read matches Ok(contents) ==> loadable(contents@),
        ensures
            match read {
                Ok(contents) => r matches Ok(config) && config@ == parsed(contents@),
                Err(reason) => r == Err::<Arc<AppConfig>, ConfigError>(
                    ConfigError::Unreadable(reason),
                ),
            },
    {
        match read {
            Ok(contents) => AppConfig::from_str(contents.as_str()),
            Err(reason) => Err(ConfigError::Unreadable(reason)),
        }
    }

    /// The text to be kept in the configuration file.
    pub fn to_file(&self) -> (r: String)
        ensures
            r@ == rendered(self@),
    {
        let mut out = main_string(self);
        put_devices(&mut out, &self.vtos);
        out
    }
}

} // verus!

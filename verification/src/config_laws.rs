//! What holds between writing a configuration and reading it.

use crate::config;
use crate::config::{ConfigView, DeviceView, LineView, Reading};
use crate::text;
use crate::text_laws;
use vstd::prelude::*;

verus! {

/// A value that an option can hold: on one line, and with no quote at either end.
pub open spec fn storable_value(v: Seq<char>) -> bool {
    &&& !v.contains('\n')
    &&& v.len() > 0 ==> v[0] != '\'' && v.last() != '\''
}

/// A door station's id that can be stored: one word.
pub open spec fn storable_id(id: Seq<char>) -> bool {
    &&& id.len() > 0
    &&& forall|i: int| 0 <= i < id.len() ==> !text::white(#[trigger] id[i])
}

pub open spec fn storable_device(d: DeviceView) -> bool {
    &&& storable_id(d.id)
    &&& storable_value(d.ip)
    &&& storable_value(d.userid)
    &&& storable_value(d.name)
    &&& storable_value(d.password)
    &&& storable_value(d.btn_name)
}

pub open spec fn storable(c: ConfigView) -> bool {
    &&& forall|i: int| 0 <= i < c.vtos.len() ==> storable_device(#[trigger] c.vtos[i])
    &&& storable_value(c.listen)
    &&& storable_value(c.username)
    &&& storable_value(c.password)
    &&& storable_value(c.userid)
    &&& storable_value(c.gpio_out)
    &&& storable_value(c.bafa_key)
    &&& storable_value(c.sip_interface)
    &&& storable_value(c.mqtt_host)
    &&& storable_value(c.mqtt_user)
    &&& storable_value(c.mqtt_pass)
}

proof fn lemma_lines_first(a: Seq<char>, b: Seq<char>)
    requires
        !a.contains('\n'),
    ensures
        text::lines(a + seq!['\n'] + b) == seq![a] + text::lines(b),
{
    let s = a + seq!['\n'] + b;
    let n = a.len() as int;
    assert forall|k: int| 0 <= k < n implies s[k] != '\n' by {
        assert(s[k] == a[k]);
        assert(a.contains(a[k]));
    }
    assert(s[n] == '\n');
    text::lemma_find_is(s, '\n', n);
    assert(s.take(n) =~= a);
    assert(s.skip(n + 1) =~= b);
}

/// A line at the beginning of the text is read first.
proof fn lemma_first_line(r: Reading, a: Seq<char>, b: Seq<char>)
    requires
        !a.contains('\n'),
    ensures
        config::reads(r, text::lines(a + seq!['\n'] + b)) == config::reads(
            config::step(r, a),
            text::lines(b),
        ),
        config::loadable(a + seq!['\n'] + b) <==> config::line_named(a) && config::loadable(b),
{
    lemma_lines_first(a, b);
    config::lemma_reads_first(r, a, text::lines(b));
    config::lemma_named_first(a, text::lines(b));
}

proof fn lemma_trim_nothing(s: Seq<char>)
    requires
        s.len() > 0,
        !text::white(s[0]),
        !text::white(s.last()),
    ensures
        text::trim(s) == s,
{
}

/// `option name 'value'`, after white space, sets `name` to `value`.
proof fn lemma_setting_line(name: Seq<char>, value: Seq<char>)
    requires
        !name.contains(' '),
        storable_value(value),
    ensures
        config::read_line("    option "@ + name + " '"@ + value + "'"@) == LineView::Setting(
            name,
            value,
        ),
{
    reveal_strlit("    option ");
    reveal_strlit(" '");
    reveal_strlit("'");
    reveal_strlit("config");
    reveal_strlit("option");
    let raw = "    option "@ + name + " '"@ + value + "'"@;
    let line = "option "@ + name + " '"@ + value + "'"@;
    reveal_strlit("option ");
    assert(text::trim_start(raw) == line) by {
        let r1 = raw.drop_first();
        let r2 = r1.drop_first();
        let r3 = r2.drop_first();
        let r4 = r3.drop_first();
        assert(raw[0] == ' ' && r1[0] == ' ' && r2[0] == ' ' && r3[0] == ' ');
        assert(r4 =~= line);
        assert(line[0] == 'o');
        assert(text::trim_start(r4) == line);
        assert(text::trim_start(r3) == line);
        assert(text::trim_start(r2) == line);
        assert(text::trim_start(r1) == line);
    }
    assert(line.last() == '\'');
    assert(text::trim(raw) == line);
    assert(line[0] != "config"@[0]);
    assert("option"@.is_prefix_of(line)) by {
        assert("option"@ =~= line.subrange(0, "option"@.len() as int));
    }
    let rest = name + " '"@ + value + "'"@;
    assert(text::split_at_first(line, ' ') == Some((line.take(6), rest))) by {
        assert forall|k: int| 0 <= k < 6 implies line[k] != ' ' by {}
        assert(line[6] == ' ');
        text::lemma_find_is(line, ' ', 6);
        assert(line.skip(7) =~= rest);
    }
    let quoted = seq!['\''] + value + seq!['\''];
    assert(text::split_at_first(rest, ' ') == Some((name, quoted))) by {
        let n = name.len() as int;
        assert forall|k: int| 0 <= k < n implies rest[k] != ' ' by {
            assert(rest[k] == name[k]);
            assert(name.contains(name[k]));
        }
        assert(rest[n] == ' ');
        text::lemma_find_is(rest, ' ', n);
        assert(rest.take(n) =~= name);
        assert(rest.skip(n + 1) =~= quoted);
    }
    lemma_strip_quoted(value);
}

proof fn lemma_strip_quoted(value: Seq<char>)
    requires
        storable_value(value),
    ensures
        text::strip(seq!['\''] + value + seq!['\''], '\'') == value,
{
    let quoted = seq!['\''] + value + seq!['\''];
    let open = value + seq!['\''];
    assert(quoted.drop_first() =~= open);
    if value.len() == 0 {
        assert(open.drop_first() =~= value);
        assert(text::strip_start(value, '\'') == value);
        assert(text::strip_start(open, '\'') == value);
        assert(text::strip_end(value, '\'') == value);
    } else {
        assert(open[0] == value[0]);
        assert(text::strip_start(open, '\'') == open);
        assert(open.drop_last() =~= value);
        assert(text::strip_end(value, '\'') == value);
        assert(text::strip_end(open, '\'') == value);
    }
}

/// Reading a written option.
proof fn lemma_setting(r: Reading, name: Seq<char>, value: Seq<char>, rest: Seq<char>)
    requires
        !name.contains(' '),
        !name.contains('\n'),
        storable_value(value),
    ensures
        config::reads(r, text::lines(config::setting(name, value) + rest)) == config::reads(
            Reading { options: r.options.insert(name, value), ..r },
            text::lines(rest),
        ),
        config::loadable(config::setting(name, value) + rest) <==> config::loadable(rest),
{
    reveal_strlit("    option ");
    reveal_strlit(" '");
    reveal_strlit("'");
    reveal_strlit("'\n");
    let a = "    option "@ + name + " '"@ + value + "'"@;
    assert(!a.contains('\n')) by {
        if a.contains('\n') {
            let k = choose|k: int| 0 <= k < a.len() && a[k] == '\n';
            let n = name.len() as int;
            let m = value.len() as int;
            if 11 <= k < 11 + n {
                assert(a[k] == name[k - 11]);
            } else if 13 + n <= k < 13 + n + m {
                assert(a[k] == value[k - 13 - n]);
            }
        }
    }
    assert(config::setting(name, value) =~= a + seq!['\n']);
    lemma_first_line(r, a, rest);
    lemma_setting_line(name, value);
}

proof fn lemma_blank_line(r: Reading, rest: Seq<char>)
    ensures
        config::reads(r, text::lines("\n"@ + rest)) == config::reads(r, text::lines(rest)),
        config::loadable("\n"@ + rest) <==> config::loadable(rest),
{
    reveal_strlit("\n");
    let a = Seq::<char>::empty();
    assert("\n"@ + rest =~= a + seq!['\n'] + rest);
    lemma_first_line(r, a, rest);
    assert(text::trim(a) == a);
}

/// The section of the general settings.
proof fn lemma_main_line(r: Reading, rest: Seq<char>)
    ensures
        config::reads(r, text::lines("config dahuavto 'main'\n"@ + rest)) == config::reads(
            Reading {
                section: Some("dahuavto 'main'"@),
                options: Map::empty(),
                config: config::closed(r),
            },
            text::lines(rest),
        ),
        config::loadable("config dahuavto 'main'\n"@ + rest) <==> config::loadable(rest),
{
    reveal_strlit("config dahuavto 'main'\n");
    reveal_strlit("config dahuavto 'main'");
    reveal_strlit("dahuavto 'main'");
    reveal_strlit("dahuavto_device");
    reveal_strlit("config");
    reveal_strlit("config ");
    let a = "config dahuavto 'main'"@;
    let section = "dahuavto 'main'"@;
    assert("config dahuavto 'main'\n"@ + rest =~= a + seq!['\n'] + rest);
    lemma_first_line(r, a, rest);
    lemma_trim_nothing(a);
    assert("config"@ =~= a.subrange(0, 6));
    assert(text::remove_all(a, "config "@) == section) by {
        assert("config "@ =~= a.subrange(0, 7));
        assert(a.skip(7) =~= section);
        lemma_no_keyword(section);
    }
    assert(section[8] != "dahuavto_device"@[8]);
    assert(!config::is_device(section));
}

/// A text in which every blank is followed by no blank and which does not hold `g ` holds no
/// section keyword.
proof fn lemma_no_keyword(s: Seq<char>)
    requires
        forall|i: int| 0 < i < s.len() && s[i] == ' ' ==> #[trigger] s[i - 1] != 'g',
    ensures
        text::remove_all(s, "config "@) == s,
    decreases s.len(),
{
    reveal_strlit("config ");
    if s.len() > 0 {
        if "config "@.is_prefix_of(s) {
            assert(s[6] == "config "@[6]);
            assert(s[5] == "config "@[5]);
            assert(s[6 - 1] != 'g');
        }
        let t = s.drop_first();
        assert forall|i: int| 0 < i < t.len() && t[i] == ' ' implies #[trigger] t[i - 1] != 'g' by {
            assert(s[i + 1] == ' ');
            assert(s[(i + 1) - 1] != 'g');
        }
        lemma_no_keyword(t);
        assert(seq![s[0]] + t =~= s);
    }
}

proof fn lemma_word(id: Seq<char>, n: int)
    requires
        0 <= n <= id.len(),
        forall|i: int| 0 <= i < id.len() ==> !text::white(#[trigger] id[i]),
    ensures
        text::word_len(id.skip(n)) == id.len() - n,
    decreases id.len() - n,
{
    if n < id.len() {
        lemma_word(id, n + 1);
        assert(id.skip(n).drop_first() =~= id.skip(n + 1));
    }
}

proof fn lemma_word_then_blank(a: Seq<char>, b: Seq<char>)
    requires
        forall|i: int| 0 <= i < a.len() ==> !text::white(#[trigger] a[i]),
    ensures
        text::word_len(a + seq![' '] + b) == a.len(),
    decreases a.len(),
{
    let s = a + seq![' '] + b;
    if a.len() > 0 {
        assert(s[0] == a[0]);
        let t = a.drop_first();
        assert forall|i: int| 0 <= i < t.len() implies !text::white(#[trigger] t[i]) by {
            assert(t[i] == a[i + 1]);
        }
        lemma_word_then_blank(t, b);
        assert(s.drop_first() =~= t + seq![' '] + b);
    } else {
        assert(s[0] == ' ');
    }
}

/// The section of a door station.
proof fn lemma_device_line(r: Reading, id: Seq<char>, rest: Seq<char>)
    requires
        storable_id(id),
    ensures
        config::reads(r, text::lines("config dahuavto_device "@ + id + "\n"@ + rest))
            == config::reads(
            Reading {
                section: Some("dahuavto_device "@ + id),
                options: Map::empty(),
                config: config::closed(r),
            },
            text::lines(rest),
        ),
        config::loadable("config dahuavto_device "@ + id + "\n"@ + rest) <==> config::loadable(
            rest,
        ),
        config::is_device("dahuavto_device "@ + id),
        text::words("dahuavto_device "@ + id).len() >= 2,
        text::words("dahuavto_device "@ + id)[1] == id,
{
    reveal_strlit("config dahuavto_device ");
    reveal_strlit("dahuavto_device ");
    reveal_strlit("dahuavto_device");
    reveal_strlit("config");
    reveal_strlit("config ");
    reveal_strlit("\n");
    let a = "config dahuavto_device "@ + id;
    let section = "dahuavto_device "@ + id;
    assert("\n"@ =~= seq!['\n']);
    assert(!a.contains('\n')) by {
        if a.contains('\n') {
            let k = choose|k: int| 0 <= k < a.len() && a[k] == '\n';
            if k >= 23 {
                assert(a[k] == id[k - 23]);
                assert(text::white('\n'));
            }
        }
    }
    lemma_first_line(r, a, rest);
    assert(a.last() == id.last());
    lemma_trim_nothing(a);
    assert("config"@ =~= a.subrange(0, 6));
    assert(text::remove_all(a, "config "@) == section) by {
        assert("config "@ =~= a.subrange(0, 7));
        assert(a.skip(7) =~= section);
        assert forall|i: int| 0 < i < section.len() && section[i] == ' ' implies
            #[trigger] section[i - 1] != 'g' by {
            if i >= 16 {
                assert(section[i] == id[i - 16]);
                assert(text::white(' '));
            }
        }
        lemma_no_keyword(section);
    }
    assert("dahuavto_device"@ =~= section.subrange(0, 15));
    let word = "dahuavto_device"@;
    assert(section =~= word + seq![' '] + id);
    assert(section[0] == 'd');
    assert(text::trim_start(section) == section);
    lemma_word_then_blank(word, id);
    let after = section.skip(15);
    assert(text::words(section) == seq![section.take(15)] + text::words(after));
    assert(after[0] == ' ');
    assert(after.drop_first() =~= id);
    assert(!text::white(id[0]));
    assert(text::trim_start(id) == id);
    assert(text::trim_start(after) == id);
    lemma_word(id, 0);
    assert(id.skip(0) =~= id);
    assert(id.take(id.len() as int) =~= id);
    assert(text::words(after) == seq![id] + text::words(id.skip(id.len() as int)));
}

/// The names of the options hold neither blanks nor line ends.
proof fn lemma_names()
    ensures
        !"listen"@.contains(' ') && !"listen"@.contains('\n'),
        !"username"@.contains(' ') && !"username"@.contains('\n'),
        !"password"@.contains(' ') && !"password"@.contains('\n'),
        !"userid"@.contains(' ') && !"userid"@.contains('\n'),
        !"gpio_out"@.contains(' ') && !"gpio_out"@.contains('\n'),
        !"bafa_key"@.contains(' ') && !"bafa_key"@.contains('\n'),
        !"auto_open"@.contains(' ') && !"auto_open"@.contains('\n'),
        !"sip_interface"@.contains(' ') && !"sip_interface"@.contains('\n'),
        !"mqtt_host"@.contains(' ') && !"mqtt_host"@.contains('\n'),
        !"mqtt_user"@.contains(' ') && !"mqtt_user"@.contains('\n'),
        !"mqtt_pass"@.contains(' ') && !"mqtt_pass"@.contains('\n'),
        !"ip"@.contains(' ') && !"ip"@.contains('\n'),
        !"port"@.contains(' ') && !"port"@.contains('\n'),
        !"name"@.contains(' ') && !"name"@.contains('\n'),
        !"gpio"@.contains(' ') && !"gpio"@.contains('\n'),
        !"btn_name"@.contains(' ') && !"btn_name"@.contains('\n'),
{
    reveal_strlit("listen");
    reveal_strlit("username");
    reveal_strlit("password");
    reveal_strlit("userid");
    reveal_strlit("gpio_out");
    reveal_strlit("bafa_key");
    reveal_strlit("auto_open");
    reveal_strlit("sip_interface");
    reveal_strlit("mqtt_host");
    reveal_strlit("mqtt_user");
    reveal_strlit("mqtt_pass");
    reveal_strlit("ip");
    reveal_strlit("port");
    reveal_strlit("name");
    reveal_strlit("gpio");
    reveal_strlit("btn_name");
}

proof fn lemma_flag(b: bool)
    ensures
        storable_value(config::flag(b)),
        config::flag(b) == "true"@ <==> b,
{
    reveal_strlit("true");
    reveal_strlit("false");
    assert("false"@.len() != "true"@.len());
}

proof fn lemma_storable_number(n: u16)
    ensures
        storable_value(text::decimal(n as nat)),
{
    let s = text::decimal(n as nat);
    text::lemma_decimal(n as nat);
    if s.contains('\n') {
        let k = choose|k: int| 0 <= k < s.len() && s[k] == '\n';
        assert(text::is_digit(s[k]));
    }
    assert(text::is_digit(s[0]));
    assert(text::is_digit(s[s.len() - 1]));
}

/// The options of the general section.
spec fn main_options(c: ConfigView) -> Map<Seq<char>, Seq<char>> {
    Map::<Seq<char>, Seq<char>>::empty().insert("listen"@, c.listen).insert("username"@, c.username).insert("password"@, c.password).insert("userid"@, c.userid).insert("gpio_out"@, c.gpio_out).insert("bafa_key"@, c.bafa_key).insert("auto_open"@, config::flag(c.auto_open)).insert("sip_interface"@, c.sip_interface).insert("mqtt_host"@, c.mqtt_host).insert("mqtt_user"@, c.mqtt_user).insert("mqtt_pass"@, c.mqtt_pass)
}

/// The options of a door station's section.
spec fn device_options(d: DeviceView) -> Map<Seq<char>, Seq<char>> {
    Map::<Seq<char>, Seq<char>>::empty().insert("ip"@, d.ip).insert("port"@, text::decimal(d.port as nat)).insert("userid"@, d.userid).insert("name"@, d.name).insert("password"@, d.password).insert("gpio"@, text::decimal(d.gpio as nat)).insert("btn_name"@, d.btn_name)
}

/// Reading the written general settings.
proof fn lemma_main_text(r: Reading, c: ConfigView, rest: Seq<char>)
    requires
        storable(c),
    ensures
        config::reads(r, text::lines(config::main_text(c) + rest)) == config::reads(
            Reading {
                section: Some("dahuavto 'main'"@),
                options: main_options(c),
                config: config::closed(r),
            },
            text::lines(rest),
        ),
        config::loadable(config::main_text(c) + rest) <==> config::loadable(rest),
{
    lemma_names();
    lemma_flag(c.auto_open);
    let p0 = "config dahuavto 'main'\n"@;
    let s1 = config::setting("listen"@, c.listen);
    let p1 = p0 + s1;
    let s2 = config::setting("username"@, c.username);
    let p2 = p1 + s2;
    let s3 = config::setting("password"@, c.password);
    let p3 = p2 + s3;
    let s4 = config::setting("userid"@, c.userid);
    let p4 = p3 + s4;
    let s5 = config::setting("gpio_out"@, c.gpio_out);
    let p5 = p4 + s5;
    let s6 = config::setting("bafa_key"@, c.bafa_key);
    let p6 = p5 + s6;
    let s7 = config::setting("auto_open"@, config::flag(c.auto_open));
    let p7 = p6 + s7;
    let s8 = config::setting("sip_interface"@, c.sip_interface);
    let p8 = p7 + s8;
    let s9 = config::setting("mqtt_host"@, c.mqtt_host);
    let p9 = p8 + s9;
    let s10 = config::setting("mqtt_user"@, c.mqtt_user);
    let p10 = p9 + s10;
    let s11 = config::setting("mqtt_pass"@, c.mqtt_pass);
    let p11 = p10 + s11;
    let t11 = "\n"@ + rest;
    config::lemma_assoc(p11, "\n"@, rest);
    let t10 = s11 + t11;
    config::lemma_assoc(p10, s11, t11);
    let t9 = s10 + t10;
    config::lemma_assoc(p9, s10, t10);
    let t8 = s9 + t9;
    config::lemma_assoc(p8, s9, t9);
    let t7 = s8 + t8;
    config::lemma_assoc(p7, s8, t8);
    let t6 = s7 + t7;
    config::lemma_assoc(p6, s7, t7);
    let t5 = s6 + t6;
    config::lemma_assoc(p5, s6, t6);
    let t4 = s5 + t5;
    config::lemma_assoc(p4, s5, t5);
    let t3 = s4 + t4;
    config::lemma_assoc(p3, s4, t4);
    let t2 = s3 + t3;
    config::lemma_assoc(p2, s3, t3);
    let t1 = s2 + t2;
    config::lemma_assoc(p1, s2, t2);
    let t0 = s1 + t1;
    config::lemma_assoc(p0, s1, t1);
    lemma_main_line(r, t0);
    let r0 = Reading {
        section: Some("dahuavto 'main'"@),
        options: Map::empty(),
        config: config::closed(r),
    };
    lemma_setting(r0, "listen"@, c.listen, t1);
    let r1 = Reading { options: r0.options.insert("listen"@, c.listen), ..r0 };
    lemma_setting(r1, "username"@, c.username, t2);
    let r2 = Reading { options: r1.options.insert("username"@, c.username), ..r1 };
    lemma_setting(r2, "password"@, c.password, t3);
    let r3 = Reading { options: r2.options.insert("password"@, c.password), ..r2 };
    lemma_setting(r3, "userid"@, c.userid, t4);
    let r4 = Reading { options: r3.options.insert("userid"@, c.userid), ..r3 };
    lemma_setting(r4, "gpio_out"@, c.gpio_out, t5);
    let r5 = Reading { options: r4.options.insert("gpio_out"@, c.gpio_out), ..r4 };
    lemma_setting(r5, "bafa_key"@, c.bafa_key, t6);
    let r6 = Reading { options: r5.options.insert("bafa_key"@, c.bafa_key), ..r5 };
    lemma_setting(r6, "auto_open"@, config::flag(c.auto_open), t7);
    let r7 = Reading { options: r6.options.insert("auto_open"@, config::flag(c.auto_open)), ..r6 };
    lemma_setting(r7, "sip_interface"@, c.sip_interface, t8);
    let r8 = Reading { options: r7.options.insert("sip_interface"@, c.sip_interface), ..r7 };
    lemma_setting(r8, "mqtt_host"@, c.mqtt_host, t9);
    let r9 = Reading { options: r8.options.insert("mqtt_host"@, c.mqtt_host), ..r8 };
    lemma_setting(r9, "mqtt_user"@, c.mqtt_user, t10);
    let r10 = Reading { options: r9.options.insert("mqtt_user"@, c.mqtt_user), ..r9 };
    lemma_setting(r10, "mqtt_pass"@, c.mqtt_pass, t11);
    let r11 = Reading { options: r10.options.insert("mqtt_pass"@, c.mqtt_pass), ..r10 };
    lemma_blank_line(r11, rest);
}

/// Reading a written door station.
proof fn lemma_device_text(r: Reading, d: DeviceView, rest: Seq<char>)
    requires
        storable_device(d),
    ensures
        config::reads(r, text::lines(config::device_text(d) + rest)) == config::reads(
            Reading {
                section: Some("dahuavto_device "@ + d.id),
                options: device_options(d),
                config: config::closed(r),
            },
            text::lines(rest),
        ),
        config::loadable(config::device_text(d) + rest) <==> config::loadable(rest),
{
    lemma_names();
    lemma_storable_number(d.port);
    lemma_storable_number(d.gpio);
    let p0 = "config dahuavto_device "@ + d.id + "\n"@;
    let s1 = config::setting("ip"@, d.ip);
    let p1 = p0 + s1;
    let s2 = config::setting("port"@, text::decimal(d.port as nat));
    let p2 = p1 + s2;
    let s3 = config::setting("userid"@, d.userid);
    let p3 = p2 + s3;
    let s4 = config::setting("name"@, d.name);
    let p4 = p3 + s4;
    let s5 = config::setting("password"@, d.password);
    let p5 = p4 + s5;
    let s6 = config::setting("gpio"@, text::decimal(d.gpio as nat));
    let p6 = p5 + s6;
    let s7 = config::setting("btn_name"@, d.btn_name);
    let p7 = p6 + s7;
    let t7 = "\n"@ + rest;
    config::lemma_assoc(p7, "\n"@, rest);
    let t6 = s7 + t7;
    config::lemma_assoc(p6, s7, t7);
    let t5 = s6 + t6;
    config::lemma_assoc(p5, s6, t6);
    let t4 = s5 + t5;
    config::lemma_assoc(p4, s5, t5);
    let t3 = s4 + t4;
    config::lemma_assoc(p3, s4, t4);
    let t2 = s3 + t3;
    config::lemma_assoc(p2, s3, t3);
    let t1 = s2 + t2;
    config::lemma_assoc(p1, s2, t2);
    let t0 = s1 + t1;
    config::lemma_assoc(p0, s1, t1);
    lemma_device_line(r, d.id, t0);
    let r0 = Reading {
        section: Some("dahuavto_device "@ + d.id),
        options: Map::empty(),
        config: config::closed(r),
    };
    lemma_setting(r0, "ip"@, d.ip, t1);
    let r1 = Reading { options: r0.options.insert("ip"@, d.ip), ..r0 };
    lemma_setting(r1, "port"@, text::decimal(d.port as nat), t2);
    let r2 = Reading { options: r1.options.insert("port"@, text::decimal(d.port as nat)), ..r1 };
    lemma_setting(r2, "userid"@, d.userid, t3);
    let r3 = Reading { options: r2.options.insert("userid"@, d.userid), ..r2 };
    lemma_setting(r3, "name"@, d.name, t4);
    let r4 = Reading { options: r3.options.insert("name"@, d.name), ..r3 };
    lemma_setting(r4, "password"@, d.password, t5);
    let r5 = Reading { options: r4.options.insert("password"@, d.password), ..r4 };
    lemma_setting(r5, "gpio"@, text::decimal(d.gpio as nat), t6);
    let r6 = Reading { options: r5.options.insert("gpio"@, text::decimal(d.gpio as nat)), ..r5 };
    lemma_setting(r6, "btn_name"@, d.btn_name, t7);
    let r7 = Reading { options: r6.options.insert("btn_name"@, d.btn_name), ..r6 };
    lemma_blank_line(r7, rest);
}

/// The general settings are what their options say.
proof fn lemma_main_of(c: ConfigView, vtos: Seq<DeviceView>)
    ensures
        config::main_of(main_options(c), vtos) == (ConfigView { vtos, ..c }),
{
    reveal_strlit("listen");
    reveal_strlit("username");
    reveal_strlit("password");
    reveal_strlit("userid");
    reveal_strlit("gpio_out");
    reveal_strlit("bafa_key");
    reveal_strlit("auto_open");
    reveal_strlit("sip_interface");
    reveal_strlit("mqtt_host");
    reveal_strlit("mqtt_user");
    reveal_strlit("mqtt_pass");
    assert("listen"@.len() == 6 && "userid"@.len() == 6);
    assert("username"@.len() == 8 && "password"@.len() == 8 && "gpio_out"@.len() == 8
        && "bafa_key"@.len() == 8);
    assert("auto_open"@.len() == 9 && "mqtt_host"@.len() == 9 && "mqtt_user"@.len() == 9
        && "mqtt_pass"@.len() == 9);
    assert("sip_interface"@.len() == 13);
    assert("listen"@[0] == 'l' && "userid"@[0] == 'u');
    assert("username"@[0] == 'u' && "password"@[0] == 'p' && "gpio_out"@[0] == 'g' && "bafa_key"@[0]
        == 'b');
    assert("auto_open"@[5] == 'o' && "mqtt_host"@[5] == 'h' && "mqtt_user"@[5] == 'u'
        && "mqtt_pass"@[5] == 'p');
    lemma_flag(c.auto_open);
}

/// A door station is what its section says.
proof fn lemma_device_of(d: DeviceView)
    requires
        storable_id(d.id),
    ensures
        config::device_of("dahuavto_device "@ + d.id, device_options(d)) == d,
{
    reveal_strlit("ip");
    reveal_strlit("port");
    reveal_strlit("userid");
    reveal_strlit("name");
    reveal_strlit("password");
    reveal_strlit("gpio");
    reveal_strlit("btn_name");
    assert("ip"@.len() == 2 && "userid"@.len() == 6);
    assert("port"@.len() == 4 && "name"@.len() == 4 && "gpio"@.len() == 4);
    assert("password"@.len() == 8 && "btn_name"@.len() == 8);
    assert("port"@[0] == 'p' && "name"@[0] == 'n' && "gpio"@[0] == 'g');
    assert("password"@[0] == 'p' && "btn_name"@[0] == 'b');
    text::number_of_decimal(d.port);
    text::number_of_decimal(d.gpio);
    lemma_device_line(config::start(), d.id, Seq::empty());
}

/// Reading written door stations adds them in order.
proof fn lemma_devices_text(r: Reading, devices: Seq<DeviceView>, rest: Seq<char>) -> (after: Reading)
    requires
        forall|i: int| 0 <= i < devices.len() ==> storable_device(#[trigger] devices[i]),
    ensures
        config::reads(r, text::lines(config::devices_text(devices) + rest)) == config::reads(
            after,
            text::lines(rest),
        ),
        config::closed(after) == (ConfigView {
            vtos: config::closed(r).vtos + devices,
            ..config::closed(r)
        }),
        config::loadable(config::devices_text(devices) + rest) <==> config::loadable(rest),
    decreases devices.len(),
{
    if devices.len() == 0 {
        assert(config::devices_text(devices) + rest =~= rest);
        assert(config::closed(r).vtos + devices =~= config::closed(r).vtos);
        r
    } else {
        let d = devices.last();
        let earlier = devices.drop_last();
        let text = config::device_text(d) + rest;
        config::lemma_assoc(config::devices_text(earlier), config::device_text(d), rest);
        assert forall|i: int| 0 <= i < earlier.len() implies storable_device(#[trigger] earlier[i]) by {
            assert(earlier[i] == devices[i]);
        }
        assert(devices[devices.len() - 1] == d);
        let middle = lemma_devices_text(r, earlier, text);
        lemma_device_text(middle, d, rest);
        lemma_device_line(config::start(), d.id, Seq::empty());
        lemma_device_of(d);
        assert((config::closed(r).vtos + earlier).push(d) =~= config::closed(r).vtos + devices);
        Reading {
            section: Some("dahuavto_device "@ + d.id),
            options: device_options(d),
            config: config::closed(middle),
        }
    }
}

/// A configuration reads back from the text that is written for it. The text holds what the
/// reader needs: it can be loaded.
pub proof fn written_config_reads_back(c: ConfigView)
    requires
        storable(c),
    ensures
        config::loadable(config::rendered(c)),
        config::parsed(config::rendered(c)) == c,
{
    reveal_strlit("dahuavto 'main'");
    reveal_strlit("dahuavto_device");
    let rest = config::devices_text(c.vtos);
    let r = config::start();
    lemma_main_text(r, c, rest);
    let main = Reading {
        section: Some("dahuavto 'main'"@),
        options: main_options(c),
        config: config::closed(r),
    };
    assert("dahuavto 'main'"@[8] != "dahuavto_device"@[8]);
    assert(!config::is_device("dahuavto 'main'"@));
    lemma_main_of(c, Seq::empty());
    let none = Seq::<char>::empty();
    let after = lemma_devices_text(main, c.vtos, none);
    assert(rest + none =~= rest);
    assert(text::lines(none) =~= seq![none]);
    config::lemma_reads_first(after, none, Seq::empty());
    config::lemma_named_first(none, Seq::empty());
    assert(seq![none] + Seq::<Seq<char>>::empty() =~= seq![none]);
    assert(text::trim(none) == none);
    assert(Seq::<DeviceView>::empty() + c.vtos =~= c.vtos);
    assert(config::parsed(config::rendered(c)) =~= c);
}

proof fn lemma_lines_break_free(s: Seq<char>, i: int)
    requires
        0 <= i < text::lines(s).len(),
    ensures
        !text::lines(s)[i].contains('\n'),
    decreases s.len(),
{
    let n = text::find(s, '\n');
    text::lemma_find(s, '\n');
    if n < s.len() {
        if i == 0 {
            assert(text::lines(s)[0] =~= s.take(n));
        } else {
            lemma_lines_break_free(s.skip(n + 1), i - 1);
        }
    }
}

proof fn lemma_trim_start_part(s: Seq<char>) -> (k: int)
    ensures
        0 <= k <= s.len(),
        text::trim_start(s) == s.skip(k),
    decreases s.len(),
{
    if s.len() > 0 && text::white(s[0]) {
        let k = lemma_trim_start_part(s.drop_first());
        assert(s.drop_first().skip(k) =~= s.skip(k + 1));
        k + 1
    } else {
        assert(s.skip(0) =~= s);
        0
    }
}

proof fn lemma_trim_end_part(s: Seq<char>) -> (k: int)
    ensures
        0 <= k <= s.len(),
        text::trim_end(s) == s.take(k),
    decreases s.len(),
{
    if s.len() > 0 && text::white(s.last()) {
        let k = lemma_trim_end_part(s.drop_last());
        assert(s.drop_last().take(k) =~= s.take(k));
        k
    } else {
        assert(s.take(s.len() as int) =~= s);
        s.len() as int
    }
}

proof fn lemma_strip_start_part(s: Seq<char>, c: char) -> (k: int)
    ensures
        0 <= k <= s.len(),
        text::strip_start(s, c) == s.skip(k),
        k < s.len() ==> s[k] != c,
    decreases s.len(),
{
    if s.len() > 0 && s[0] == c {
        let k = lemma_strip_start_part(s.drop_first(), c);
        assert(s.drop_first().skip(k) =~= s.skip(k + 1));
        k + 1
    } else {
        assert(s.skip(0) =~= s);
        0
    }
}

proof fn lemma_strip_end_part(s: Seq<char>, c: char) -> (k: int)
    ensures
        0 <= k <= s.len(),
        text::strip_end(s, c) == s.take(k),
        k > 0 ==> s[k - 1] != c,
    decreases s.len(),
{
    if s.len() > 0 && s.last() == c {
        let k = lemma_strip_end_part(s.drop_last(), c);
        assert(s.drop_last().take(k) =~= s.take(k));
        k
    } else {
        assert(s.take(s.len() as int) =~= s);
        s.len() as int
    }
}

proof fn lemma_part_break_free(s: Seq<char>, a: int, b: int)
    requires
        0 <= a <= b <= s.len(),
        !s.contains('\n'),
    ensures
        !s.subrange(a, b).contains('\n'),
{
    let t = s.subrange(a, b);
    if t.contains('\n') {
        let k = choose|k: int| 0 <= k < t.len() && t[k] == '\n';
        assert(s[a + k] == '\n');
    }
}

/// What an option is set to can be stored.
proof fn lemma_read_storable(raw: Seq<char>)
    requires
        !raw.contains('\n'),
    ensures
        config::read_line(raw) matches LineView::Setting(_, value) ==> storable_value(value),
{
    if let LineView::Setting(key, value) = config::read_line(raw) {
        let j = lemma_trim_start_part(raw);
        let t = raw.skip(j);
        let k = lemma_trim_end_part(t);
        let line = text::trim(raw);
        assert(line =~= raw.subrange(j, j + k));
        lemma_part_break_free(raw, j, j + k);
        text::lemma_find(line, ' ');
        let n = text::find(line, ' ');
        let rest = line.skip(n + 1);
        assert(rest =~= line.subrange(n + 1, line.len() as int));
        lemma_part_break_free(line, n + 1, line.len() as int);
        text::lemma_find(rest, ' ');
        let m = text::find(rest, ' ');
        let quoted = rest.skip(m + 1);
        assert(quoted =~= rest.subrange(m + 1, rest.len() as int));
        lemma_part_break_free(rest, m + 1, rest.len() as int);
        let a = lemma_strip_start_part(quoted, '\'');
        let open = quoted.skip(a);
        let b = lemma_strip_end_part(open, '\'');
        assert(value =~= quoted.subrange(a, a + b));
        lemma_part_break_free(quoted, a, a + b);
    }
}

spec fn storable_options(options: Map<Seq<char>, Seq<char>>) -> bool {
    forall|key: Seq<char>| options.contains_key(key) ==> storable_value(#[trigger] options[key])
}

proof fn lemma_word_is_storable(s: Seq<char>)
    ensures
        text::word_len(s) <= s.len(),
        forall|i: int| 0 <= i < text::word_len(s) ==> !text::white(#[trigger] s[i]),
    decreases s.len(),
{
    if s.len() > 0 && !text::white(s[0]) {
        let t = s.drop_first();
        lemma_word_len_nonneg(t);
        lemma_word_is_storable(t);
        assert forall|i: int| 0 <= i < text::word_len(s) implies !text::white(#[trigger] s[i]) by {
            if i > 0 {
                assert(s[i] == t[i - 1]);
            }
        }
    }
}

proof fn lemma_word_len_nonneg(s: Seq<char>)
    ensures
        text::word_len(s) >= 0,
    decreases s.len(),
{
    if s.len() > 0 && !text::white(s[0]) {
        lemma_word_len_nonneg(s.drop_first());
    }
}

proof fn lemma_words_storable(s: Seq<char>, i: int)
    requires
        0 <= i < text::words(s).len(),
    ensures
        storable_id(text::words(s)[i]),
    decreases s.len(),
{
    let t = text::trim_start(s);
    let n = text::word_len(t);
    text::lemma_trim_start_len(s);
    lemma_word_len_nonneg(t);
    lemma_word_is_storable(t);
    if i == 0 {
        assert(text::words(s)[0] == t.take(n));
    } else {
        lemma_words_storable(t.skip(n), i - 1);
    }
}

proof fn lemma_closed_storable(r: Reading)
    requires
        storable(r.config),
        storable_options(r.options),
        r.section matches Some(section) ==> config::named(section),
    ensures
        storable(config::closed(r)),
{
    if let Some(section) = r.section {
        if config::is_device(section) {
            lemma_words_storable(section, 1);
            let vtos = config::closed(r).vtos;
            assert forall|i: int| 0 <= i < vtos.len() implies storable_device(#[trigger] vtos[i]) by {
                if i < r.config.vtos.len() {
                    assert(vtos[i] == r.config.vtos[i]);
                }
            }
        }
    }
}

proof fn lemma_reads_storable(r: Reading, raw: Seq<Seq<char>>)
    requires
        storable(r.config),
        storable_options(r.options),
        r.section matches Some(section) ==> config::named(section),
        config::all_named(raw),
        forall|i: int| 0 <= i < raw.len() ==> !(#[trigger] raw[i]).contains('\n'),
    ensures
        storable(config::closed(config::reads(r, raw))),
    decreases raw.len(),
{
    if raw.len() == 0 {
        lemma_closed_storable(r);
    } else {
        let rest = raw.drop_first();
        assert(raw =~= seq![raw[0]] + rest);
        config::lemma_named_first(raw[0], rest);
        lemma_read_storable(raw[0]);
        lemma_closed_storable(r);
        assert forall|i: int| 0 <= i < rest.len() implies !(#[trigger] rest[i]).contains('\n') by {
            assert(rest[i] == raw[i + 1]);
        }
        lemma_reads_storable(config::step(r, raw[0]), rest);
    }
}

/// Whatever was read can be stored.
pub proof fn read_config_is_storable(text: Seq<char>)
    requires
        config::loadable(text),
    ensures
        storable(config::parsed(text)),
{
    assert forall|i: int| 0 <= i < text::lines(text).len() implies !(#[trigger] text::lines(
        text,
    )[i]).contains('\n') by {
        lemma_lines_break_free(text, i);
    }
    lemma_reads_storable(config::start(), text::lines(text));
}

/// Writing what was read and reading it again gives the same configuration.
pub proof fn rewriting_keeps_config(text: Seq<char>)
    requires
        config::loadable(text),
    ensures
        config::loadable(config::rendered(config::parsed(text))),
        config::parsed(config::rendered(config::parsed(text))) == config::parsed(text),
{
    read_config_is_storable(text);
    written_config_reads_back(config::parsed(text));
}

/// Exactly the storable configurations read back from their text.
pub proof fn reads_back_iff_storable(c: ConfigView)
    ensures
        config::loadable(config::rendered(c)) && config::parsed(config::rendered(c)) == c
            <==> storable(c),
{
    if storable(c) {
        written_config_reads_back(c);
    }
    if config::loadable(config::rendered(c)) {
        read_config_is_storable(config::rendered(c));
    }
}

/// A line that says nothing, such as a blank line or a comment, changes nothing wherever it
/// stands.
pub proof fn idle_line_changes_nothing(
    r: Reading,
    before: Seq<Seq<char>>,
    idle: Seq<char>,
    after: Seq<Seq<char>>,
)
    requires
        config::read_line(idle) == LineView::Nothing,
    ensures
        config::reads(r, before + seq![idle] + after) == config::reads(r, before + after),
    decreases before.len(),
{
    if before.len() == 0 {
        assert(before + seq![idle] + after =~= seq![idle] + after);
        assert(before + after =~= after);
        config::lemma_reads_first(r, idle, after);
    } else {
        let rest = before.drop_first();
        idle_line_changes_nothing(config::step(r, before[0]), rest, idle, after);
        assert((before + seq![idle] + after).drop_first() =~= rest + seq![idle] + after);
        assert((before + after).drop_first() =~= rest + after);
    }
}

/// A comment says nothing, whatever stands before and after its mark.
pub proof fn comment_says_nothing(indent: Seq<char>, comment: Seq<char>)
    requires
        forall|i: int| 0 <= i < indent.len() ==> text::white(#[trigger] indent[i]),
    ensures
        config::read_line(indent + seq!['#'] + comment) == LineView::Nothing,
    decreases indent.len(),
{
    let raw = indent + seq!['#'] + comment;
    if indent.len() > 0 {
        let rest = indent.drop_first();
        assert forall|i: int| 0 <= i < rest.len() implies text::white(#[trigger] rest[i]) by {
            assert(rest[i] == indent[i + 1]);
        }
        comment_says_nothing(rest, comment);
        assert(text::white(indent[0]));
        assert(raw.drop_first() =~= rest + seq!['#'] + comment);
    } else {
        let k = lemma_trim_end_part(raw);
        assert(raw[0] == '#');
        assert(text::trim_start(raw) == raw);
        if k > 0 {
            assert(text::trim(raw)[0] == '#');
        }
    }
}

/// A value can be stored exactly where it holds no line feed and no quote at either end, however
/// long it is, and a name exactly where it is one word.
pub proof fn storable_is_what_fits_on_a_line(v: Seq<char>, d: DeviceView, c: ConfigView)
    ensures
        storable_value(v) <==> !v.contains('\n') && (v.len() == 0 || v[0] != '\'' && v[v.len() - 1]
            != '\''),
        storable_id(v) <==> v.len() > 0 && forall|i: int|
            0 <= i < v.len() ==> !text::white(#[trigger] v[i]),
        storable_device(d) <==> storable_id(d.id) && storable_value(d.ip) && storable_value(
            d.userid,
        ) && storable_value(d.name) && storable_value(d.password) && storable_value(d.btn_name),
        storable(c) <==> (forall|i: int|
            0 <= i < c.vtos.len() ==> storable_device(#[trigger] c.vtos[i])) && storable_value(
            c.listen,
        ) && storable_value(c.username) && storable_value(c.password) && storable_value(c.userid)
            && storable_value(c.gpio_out) && storable_value(c.bafa_key) && storable_value(
            c.sip_interface,
        ) && storable_value(c.mqtt_host) && storable_value(c.mqtt_user) && storable_value(
            c.mqtt_pass,
        ),
{
}

/// What is written: each setting on a line of its own, between quotes and as it is, under its own
/// name; first the general settings, and then each device under its name, in order.
pub proof fn every_setting_is_written(
    c: ConfigView,
    d: DeviceView,
    devices: Seq<DeviceView>,
    name: Seq<char>,
    value: Seq<char>,
)
    ensures
        config::setting(name, value) == "    option "@ + name + " '"@ + value + "'\n"@,
        config::flag(true) == "true"@,
        config::flag(false) == "false"@,
        config::main_text(c) == "config dahuavto 'main'\n"@ + config::setting("listen"@, c.listen)
            + config::setting("username"@, c.username) + config::setting("password"@, c.password)
            + config::setting("userid"@, c.userid) + config::setting("gpio_out"@, c.gpio_out)
            + config::setting("bafa_key"@, c.bafa_key) + config::setting(
            "auto_open"@,
            if c.auto_open {
                "true"@
            } else {
                "false"@
            },
        ) + config::setting("sip_interface"@, c.sip_interface) + config::setting(
            "mqtt_host"@,
            c.mqtt_host,
        ) + config::setting("mqtt_user"@, c.mqtt_user) + config::setting("mqtt_pass"@, c.mqtt_pass)
            + "\n"@,
        config::device_text(d) == "config dahuavto_device "@ + d.id + "\n"@ + config::setting(
            "ip"@,
            d.ip,
        ) + config::setting("port"@, text::decimal(d.port as nat)) + config::setting(
            "userid"@,
            d.userid,
        ) + config::setting("name"@, d.name) + config::setting("password"@, d.password)
            + config::setting("gpio"@, text::decimal(d.gpio as nat)) + config::setting(
            "btn_name"@,
            d.btn_name,
        ) + "\n"@,
        config::devices_text(Seq::<DeviceView>::empty()) == Seq::<char>::empty(),
        config::devices_text(devices.push(d)) == config::devices_text(devices)
            + config::device_text(d),
        config::rendered(c) == config::main_text(c) + config::devices_text(c.vtos),
{
    assert(devices.push(d).drop_last() =~= devices);
}

/// A line is read by the keyword that it begins with, once white space around it is gone: a
/// section by all that follows the keyword, and an option by the two words behind it, the second
/// of which goes to the end of the line and loses the quotes around it.
pub proof fn line_is_read_by_its_keyword(
    raw: Seq<char>,
    rest: Seq<char>,
    key: Seq<char>,
    value: Seq<char>,
)
    requires
        !rest.contains(' '),
        !key.contains(' '),
    ensures
        text::trim(raw) == "config"@ + value ==> config::read_line(raw) == LineView::Section(
            text::remove_all("config"@ + value, "config "@),
        ),
        text::trim(raw) == "option"@ + rest + " "@ + key + " "@ + value ==> config::read_line(raw)
            == LineView::Setting(key, text::strip(value, '\'')),
        text::trim(raw) == "option"@ + rest + " "@ + key ==> config::read_line(raw)
            == LineView::Nothing,
        text::trim(raw) == "option"@ + rest ==> config::read_line(raw) == LineView::Nothing,
        text::trim(raw) == Seq::<char>::empty() ==> config::read_line(raw) == LineView::Nothing,
        text::trim(raw).len() > 0 && text::trim(raw)[0] == '#' ==> config::read_line(raw)
            == LineView::Nothing,
        text::trim(raw).len() > 0 && !"config"@.is_prefix_of(text::trim(raw))
            && !"option"@.is_prefix_of(text::trim(raw)) ==> config::read_line(raw)
            == LineView::Nothing,
{
    reveal_strlit("config");
    reveal_strlit("option");
    reveal_strlit(" ");
    let line = text::trim(raw);
    let word = "option"@ + rest;
    assert(!word.contains(' ')) by {
        if word.contains(' ') {
            let i = choose|i: int| 0 <= i < word.len() && word[i] == ' ';
            if i >= 6 {
                assert(rest[i - 6] == ' ');
                assert(rest.contains(' '));
            }
        }
    }
    if line == "config"@ + value {
        assert(line[0] == 'c');
        assert(line.subrange(0, 6) =~= "config"@);
    }
    let tail = key + " "@ + value;
    if line == "option"@ + rest + " "@ + key + " "@ + value {
        assert(line =~= word + seq![' '] + tail);
        assert(tail =~= key + seq![' '] + value);
        text_laws::parts_make_up_the_text(word, tail, ' ');
        text_laws::parts_make_up_the_text(key, value, ' ');
        assert(line =~= word + (seq![' '] + tail));
        assert(word.subrange(0, 6) =~= "option"@);
        lemma_option_prefix(line, word, seq![' '] + tail);
    }
    if line == "option"@ + rest + " "@ + key {
        assert(line =~= word + seq![' '] + key);
        text_laws::parts_make_up_the_text(word, key, ' ');
        text_laws::parts_make_up_the_text(key, value, ' ');
        assert(line =~= word + (seq![' '] + key));
        assert(word.subrange(0, 6) =~= "option"@);
        lemma_option_prefix(line, word, seq![' '] + key);
    }
    if line == word {
        text_laws::parts_make_up_the_text(word, key, ' ');
        assert(line =~= word + Seq::<char>::empty());
        assert(word.subrange(0, 6) =~= "option"@);
        lemma_option_prefix(line, word, Seq::empty());
    }
}

proof fn lemma_option_prefix(line: Seq<char>, word: Seq<char>, tail: Seq<char>)
    requires
        line == word + tail,
        word.len() >= 6,
        word.subrange(0, 6) == "option"@,
    ensures
        line[0] == 'o',
        !"config"@.is_prefix_of(line),
        "option"@.is_prefix_of(line),
{
    reveal_strlit("config");
    reveal_strlit("option");
    assert(line.subrange(0, 6) =~= "option"@);
    assert(line[0] == word.subrange(0, 6)[0]);
    if "config"@.is_prefix_of(line) {
        assert("config"@[0] == line[0]);
    }
}

/// Reading: a section ends where the next one or the text does, and begins without options; an
/// option is set in the section it stands in, and of two with one name the later counts; parts of
/// a text are read one after the other.
pub proof fn lines_are_read_in_order(r: Reading, a: Seq<Seq<char>>, b: Seq<Seq<char>>, raw: Seq<char>)
    ensures
        config::start() == (Reading {
            section: None,
            options: Map::empty(),
            config: config::blank(),
        }),
        config::step(r, raw) == match config::read_line(raw) {
            LineView::Nothing => r,
            LineView::Section(section) => Reading {
                section: Some(section),
                options: Map::empty(),
                config: match r.section {
                    Some(before) => config::apply_section(before, r.options, r.config),
                    None => r.config,
                },
            },
            LineView::Setting(key, value) => Reading {
                section: r.section,
                options: r.options.insert(key, value),
                config: r.config,
            },
        },
        config::reads(r, Seq::<Seq<char>>::empty()) == r,
        config::reads(r, seq![raw]) == config::step(r, raw),
        config::reads(r, a + b) == config::reads(config::reads(r, a), b),
        config::closed(r) == match r.section {
            Some(section) => config::apply_section(section, r.options, r.config),
            None => r.config,
        },
        config::parsed(raw) == config::closed(config::reads(config::start(), text::lines(raw))),
    decreases a.len(),
{
    config::lemma_reads_first(r, raw, Seq::empty());
    assert(seq![raw] + Seq::<Seq<char>>::empty() =~= seq![raw]);
    if a.len() == 0 {
        assert(a + b =~= b);
    } else {
        lines_are_read_in_order(config::step(r, a[0]), a.drop_first(), b, raw);
        assert((a + b).drop_first() =~= a.drop_first() + b);
        assert((a + b)[0] == a[0]);
    }
}

/// The configuration of an empty text is blank.
pub proof fn blank_config_sets_nothing()
    ensures
        config::blank().vtos.len() == 0,
        config::blank().listen.len() == 0,
        config::blank().username.len() == 0,
        config::blank().password.len() == 0,
        config::blank().userid.len() == 0,
        config::blank().gpio_out.len() == 0,
        config::blank().bafa_key.len() == 0,
        !config::blank().auto_open,
        config::blank().sip_interface.len() == 0,
        config::blank().mqtt_host.len() == 0,
        config::blank().mqtt_user.len() == 0,
        config::blank().mqtt_pass.len() == 0,
{
}

/// An option that is set has its value as it was read, and one that is not set is empty; one that
/// is no number counts as 0.
pub proof fn options_have_their_values(
    options: Map<Seq<char>, Seq<char>>,
    key: Seq<char>,
    value: Seq<char>,
)
    ensures
        config::option_of(options.insert(key, value), key) == value,
        !options.contains_key(key) ==> config::option_of(options, key) == Seq::<char>::empty(),
        options.contains_key(key) ==> config::option_of(options, key) == options[key],
        config::number_of(options.insert(key, value), key) == match text::number(value) {
            Some(n) => n,
            None => 0u16,
        },
        !options.contains_key(key) ==> config::number_of(options, key) == 0,
        options.contains_key(key) ==> config::number_of(options, key) == match text::number(
            options[key],
        ) {
            Some(n) => n,
            None => 0u16,
        },
{
    assert(text::number(Seq::<char>::empty()) is None);
}

/// The section of a device adds that device and changes nothing else, whatever was set; each part
/// of the device is the option of its name, and its name the second word of the section.
pub proof fn device_section_adds_its_device(
    section: Seq<char>,
    options: Map<Seq<char>, Seq<char>>,
    c: ConfigView,
)
    requires
        "dahuavto_device"@.is_prefix_of(section),
    ensures
        ({
            let after = config::apply_section(section, options, c);
            let d = after.vtos.last();
            &&& after == (ConfigView { vtos: c.vtos.push(d), ..c })
            &&& d.id == text::words(section)[1]
            &&& d.ip == config::option_of(options, "ip"@)
            &&& d.port == config::number_of(options, "port"@)
            &&& d.userid == config::option_of(options, "userid"@)
            &&& d.name == config::option_of(options, "name"@)
            &&& d.password == config::option_of(options, "password"@)
            &&& d.gpio == config::number_of(options, "gpio"@)
            &&& d.btn_name == config::option_of(options, "btn_name"@)
        }),
{
    let d = config::device_of(section, options);
    assert(c.vtos.push(d).last() == d);
}

/// The general section sets each general setting to the option of its name and keeps the devices;
/// any other section changes nothing.
pub proof fn general_section_sets_the_settings(
    section: Seq<char>,
    options: Map<Seq<char>, Seq<char>>,
    c: ConfigView,
)
    requires
        !"dahuavto_device"@.is_prefix_of(section),
    ensures
        section != "dahuavto 'main'"@ ==> config::apply_section(section, options, c) == c,
        section == "dahuavto 'main'"@ ==> {
            let after = config::apply_section(section, options, c);
            &&& after.vtos == c.vtos
            &&& after.listen == config::option_of(options, "listen"@)
            &&& after.username == config::option_of(options, "username"@)
            &&& after.password == config::option_of(options, "password"@)
            &&& after.userid == config::option_of(options, "userid"@)
            &&& after.gpio_out == config::option_of(options, "gpio_out"@)
            &&& after.bafa_key == config::option_of(options, "bafa_key"@)
            &&& after.auto_open == (config::option_of(options, "auto_open"@) == "true"@)
            &&& after.sip_interface == config::option_of(options, "sip_interface"@)
            &&& after.mqtt_host == config::option_of(options, "mqtt_host"@)
            &&& after.mqtt_user == config::option_of(options, "mqtt_user"@)
            &&& after.mqtt_pass == config::option_of(options, "mqtt_pass"@)
        },
{
}

/// A text can be loaded exactly where every section of a device in it has a second word.
pub proof fn text_is_loadable_where_devices_have_names(text: Seq<char>, section: Seq<char>)
    ensures
        config::named(section) <==> ("dahuavto_device"@.is_prefix_of(section) ==> text::words(
            section,
        ).len() >= 2),
        config::loadable(text) <==> forall|i: int|
            0 <= i < text::lines(text).len() ==> match config::read_line(
                #[trigger] text::lines(text)[i],
            ) {
                LineView::Section(section) => config::named(section),
                _ => true,
            },
{
    let raw = text::lines(text);
    if config::loadable(text) {
        assert forall|i: int| 0 <= i < raw.len() implies match config::read_line(
            #[trigger] raw[i],
        ) {
            LineView::Section(section) => config::named(section),
            _ => true,
        } by {
            assert(config::line_named(raw[i]));
        }
    }
}

} // verus!

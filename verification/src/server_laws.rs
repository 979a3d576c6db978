//! What the server answers, stores and opens, stated over what it is asked.

use crate::config::{AppConfig, ConfigView, DeviceConfig, DeviceView};
use crate::config;
use crate::gpio;
use crate::gpio::StepView;
use crate::http_server;
use crate::http_server::{
    Answer, AnswerView, Link, LinkAction, LinkEvent, OpenDoor, OpenDoorView, StateView,
};
use crate::json::JsonView;
use crate::sip::StationView;
use crate::text;
use crate::text_laws;
use vstd::prelude::*;

verus! {

/// Storing a new configuration keeps each part of it but the password, whether or not it comes
/// with one: all its devices, and every setting. The password is the new one where there is one,
/// and else the old one.
pub proof fn new_config_is_stored_whole(state: StateView, new_cfg: ConfigView)
    ensures
        state.merged(new_cfg).vtos == new_cfg.vtos,
        state.merged(new_cfg).listen == new_cfg.listen,
        state.merged(new_cfg).username == new_cfg.username,
        state.merged(new_cfg).userid == new_cfg.userid,
        state.merged(new_cfg).gpio_out == new_cfg.gpio_out,
        state.merged(new_cfg).bafa_key == new_cfg.bafa_key,
        state.merged(new_cfg).auto_open == new_cfg.auto_open,
        state.merged(new_cfg).sip_interface == new_cfg.sip_interface,
        state.merged(new_cfg).mqtt_host == new_cfg.mqtt_host,
        state.merged(new_cfg).mqtt_user == new_cfg.mqtt_user,
        state.merged(new_cfg).mqtt_pass == new_cfg.mqtt_pass,
        state.merged(new_cfg).password == if new_cfg.password == Seq::<char>::empty() {
            state.cfg.password
        } else {
            new_cfg.password
        },
{
    if new_cfg.password.len() == 0 {
        assert(new_cfg.password =~= Seq::<char>::empty());
    }
}

/// What is stored depends on the old configuration by its password alone.
pub proof fn only_the_old_password_counts(a: StateView, b: StateView, new_cfg: ConfigView)
    requires
        a.cfg.password == b.cfg.password || new_cfg.password.len() > 0,
    ensures
        a.merged(new_cfg) == b.merged(new_cfg),
{
}

/// A call is that of the client that called last, and it lasts for thirty seconds; a clock that
/// was set back, or no call at all, leaves none.
pub proof fn call_lasts_thirty_seconds(state: StateView, now: i128)
    ensures
        match state.call_at(now) {
            Some(client) => state.last_call_client == Some(client) && state.last_call_time is Some
                && 0 <= now - state.last_call_time->Some_0 <= 30_000_000_000,
            None => state.last_call_client is None || state.last_call_time is None || now
                < state.last_call_time->Some_0 || now - state.last_call_time->Some_0
                > 30_000_000_000,
        },
{
}

/// Noting a call changes who called and when, and nothing else.
pub proof fn call_changes_nothing_else(state: StateView, client: usize, now: i128)
    ensures
        ({
            let after = state.after_call(client, now);
            &&& after.last_call_client == Some(client)
            &&& after.last_call_time == Some(now)
            &&& after.vto_clients == state.vto_clients
            &&& after.order == state.order
            &&& after.cfg == state.cfg
        }),
{
}

/// A call is notified of by a pulse on the configured pin, and by nothing where none is set.
pub proof fn notification_is_a_pulse_on_the_pin(state: StateView)
    ensures
        state.notification() == if state.cfg.gpio_out == Seq::<char>::empty() {
            Seq::<StepView>::empty()
        } else {
            gpio::pulse(state.cfg.gpio_out)
        },
{
    if state.cfg.gpio_out.len() == 0 {
        assert(state.cfg.gpio_out =~= Seq::<char>::empty());
    }
}

/// The answers hold what they say and nothing else.
pub proof fn answers_hold_their_members(status: u16, reason: Seq<char>, answer: Answer)
    ensures
        http_server::failure(status, reason) == (AnswerView {
            status,
            body: JsonView::Object(map!["error"@ => JsonView::Text(reason)]),
        }),
        http_server::success() == (AnswerView {
            status: 200,
            body: JsonView::Object(map!["result"@ => JsonView::Text("success"@)]),
        }),
        http_server::updated() == (AnswerView {
            status: 200,
            body: JsonView::Object(
                map!["result"@ => JsonView::Text("success"@), "message"@ => JsonView::Text(
                    "配置更新成功"@,
                )],
            ),
        }),
        answer@ == (AnswerView { status: answer.status, body: answer.body.view() }),
{
}

/// A door to be opened is what its view says.
pub proof fn doors_are_what_they_show(door: OpenDoor)
    ensures
        door@ == (OpenDoorView { client: door.client, short_number: door.short_number@ }),
{
}

/// A link to a device connects to the device's address and port with its own name and password,
/// within five seconds, and is as yet idle. Its button is the device's pin, and it listens for the
/// device's user, or where it has none for that of the configuration.
pub proof fn link_is_that_of_its_device(link: Link, device: DeviceView, cfg: ConfigView)
    requires
        http_server::links_to(link, device, cfg),
    ensures
        link.client.wf(),
        link.client@.config.username@ == device.name,
        link.client@.config.password@ == device.password,
        link.client@.config.host@ == device.ip,
        link.client@.config.port == device.port,
        link.client@.config.user_id@ == device.userid,
        link.client@.config.connect_timeout == http_server::duration_of_secs(5),
        link.client@.request_id == 0,
        link.client@.session_id == 0,
        !link.client@.connected,
        !link.client@.writer,
        link.client@.pending == Set::<u32>::empty(),
        link.button is None <==> device.gpio == 0,
        link.button is Some ==> link.button->Some_0.0 == device.gpio && link.button->Some_0.1@
            == text::decimal(device.gpio as nat),
        link.user_id@ == if device.userid == Seq::<char>::empty() {
            cfg.userid
        } else {
            device.userid
        },
        link.is_callback <==> cfg.sip_interface == Seq::<char>::empty(),
{
    if device.userid.len() == 0 {
        assert(device.userid =~= Seq::<char>::empty());
    }
    if cfg.sip_interface.len() == 0 {
        assert(cfg.sip_interface =~= Seq::<char>::empty());
    }
}

/// The names are those of the devices, each once, in the order in which they first occur.
pub proof fn names_are_those_of_the_devices(devices: Seq<DeviceView>, device: DeviceView)
    requires
        devices.len() < usize::MAX,
    ensures
        http_server::names(Seq::<DeviceView>::empty()) == Seq::<Seq<char>>::empty(),
        http_server::names(devices.push(device)) == if exists|i: int|
            0 <= i < devices.len() && (#[trigger] devices[i]).id == device.id {
            http_server::names(devices)
        } else {
            http_server::names(devices).push(device.id)
        },
{
    assert(devices.push(device).drop_last() =~= devices);
    lemma_numbered(devices, device.id);
}

proof fn lemma_numbered(devices: Seq<DeviceView>, id: Seq<char>)
    ensures
        http_server::numbered(devices).contains_key(id) <==> exists|i: int|
            0 <= i < devices.len() && (#[trigger] devices[i]).id == id,
    decreases devices.len(),
{
    if devices.len() > 0 {
        let front = devices.drop_last();
        let n = devices.len() - 1;
        lemma_numbered(front, id);
        if http_server::numbered(front).contains_key(id) {
            let i = choose|i: int| 0 <= i < front.len() && (#[trigger] front[i]).id == id;
            assert(devices[i] == front[i]);
        }
        if devices[n].id != id {
            assert forall|i: int|
                0 <= i < devices.len() && (#[trigger] devices[i]).id
                    == id implies http_server::numbered(front).contains_key(id) by {
                assert(front[i] == devices[i]);
            }
        }
    }
}

/// A name is known exactly where a device has it.
pub proof fn name_is_known_where_a_device_has_it(devices: Seq<DeviceView>, id: Seq<char>)
    ensures
        http_server::numbered(devices).contains_key(id) <==> exists|i: int|
            0 <= i < devices.len() && (#[trigger] devices[i]).id == id,
{
    lemma_numbered(devices, id);
}

/// The stations are those of the known names, in order, each with its own client, address and
/// user.
pub proof fn stations_are_those_of_the_names(state: StateView, links: Seq<Link>, i: int)
    requires
        0 <= i < state.order.len(),
    ensures
        http_server::station_list(state, links).len() == state.order.len(),
        ({
            let client = state.vto_clients[state.order[i]];
            http_server::station_list(state, links)[i] == (StationView {
                host: links[client as int].client@.config.host@,
                user_id: links[client as int].client@.config.user_id@,
                client,
            })
        }),
{
}

/// A header is of the basic scheme exactly where it begins with the scheme's name and a blank; the
/// credentials are all that follows.
pub proof fn credentials_follow_the_scheme(encoded: Seq<char>, header: Seq<char>)
    ensures
        http_server::basic_credentials("Basic "@ + encoded) == Some(encoded),
        match http_server::basic_credentials(header) {
            Some(rest) => header == "Basic "@ + rest,
            None => forall|rest: Seq<char>| header != #[trigger] ("Basic "@ + rest),
        },
{
    let all = "Basic "@ + encoded;
    let n = "Basic "@.len() as int;
    assert(all.subrange(0, n) =~= "Basic "@);
    assert(all.skip(n) =~= encoded);
    match http_server::basic_credentials(header) {
        Some(rest) => {
            assert(header.subrange(0, n) =~= "Basic "@);
            assert(header =~= "Basic "@ + rest);
        },
        None => {
            assert forall|rest: Seq<char>| header != #[trigger] ("Basic "@ + rest) by {
                let other = "Basic "@ + rest;
                assert(other.subrange(0, n) =~= "Basic "@);
            }
        },
    }
}

/// A request is let in exactly where its header holds, in the basic scheme and in Base64, the
/// configured name, a colon and the configured password, where the name holds no colon.
pub proof fn only_the_password_lets_in(cfg: ConfigView, encoded: Seq<char>, header: Seq<char>)
    ensures
        http_server::lets_in(cfg, Some("Basic "@ + encoded)) <==> {
            let decoded = http_server::base64_decoded(encoded);
            &&& decoded is Some
            &&& vstd::utf8::valid_utf8(decoded->Some_0)
            &&& vstd::utf8::decode_utf8(decoded->Some_0) == cfg.username + ":"@ + cfg.password
            &&& !cfg.username.contains(':')
        },
        !http_server::lets_in(cfg, None),
        (forall|rest: Seq<char>| header != #[trigger] ("Basic "@ + rest)) ==> !http_server::lets_in(
            cfg,
            Some(header),
        ),
{
    credentials_follow_the_scheme(encoded, header);
    let decoded = http_server::base64_decoded(encoded);
    if decoded is Some && vstd::utf8::valid_utf8(decoded->Some_0) {
        let s = vstd::utf8::decode_utf8(decoded->Some_0);
        reveal_strlit(":");
        if http_server::admits(cfg, decoded) {
            http_server::only_configured_credentials_are_admitted(cfg, decoded->Some_0);
        }
        if s == cfg.username + ":"@ + cfg.password && !cfg.username.contains(':') {
            text_laws::parts_make_up_the_text(cfg.username, cfg.password, ':');
            assert(s =~= cfg.username + seq![':'] + cfg.password);
        }
    }
}

/// A configuration and its devices are what their views say.
pub proof fn configs_are_what_they_show(cfg: AppConfig, devices: Seq<DeviceConfig>, i: int)
    ensures
        cfg@ == (ConfigView {
            vtos: config::device_views(cfg.vtos@),
            listen: cfg.listen@,
            username: cfg.username@,
            password: cfg.password@,
            userid: cfg.userid@,
            gpio_out: cfg.gpio_out@,
            bafa_key: cfg.bafa_key@,
            auto_open: cfg.auto_open,
            sip_interface: cfg.sip_interface@,
            mqtt_host: cfg.mqtt_host@,
            mqtt_user: cfg.mqtt_user@,
            mqtt_pass: cfg.mqtt_pass@,
        }),
        config::device_views(devices).len() == devices.len(),
        0 <= i < devices.len() ==> config::device_views(devices)[i] == (DeviceView {
            id: devices[i].id@,
            ip: devices[i].ip@,
            port: devices[i].port,
            userid: devices[i].userid@,
            name: devices[i].name@,
            password: devices[i].password@,
            gpio: devices[i].gpio,
            btn_name: devices[i].btn_name@,
        }),
{
}

/// A device takes a connection within five seconds and is tried again after ten, and the service
/// starts anew one second after its configuration was stored.
pub proof fn server_waits_no_longer()
    ensures
        http_server::CONNECT_TIMEOUT_SECS == 5,
        http_server::RECONNECT_SECS == 10,
        http_server::RESTART_DELAY_SECS == 1,
        http_server::CALL_VALID_NANOS == 30_000_000_000,
{
}

/// A request that is not let in is answered with the status for that, and asked for a name and a
/// password.
pub proof fn refusal_asks_for_credentials()
    ensures
        http_server::STATUS_OK == 200,
        http_server::STATUS_BAD_REQUEST == 400,
        http_server::STATUS_UNAUTHORIZED == 401,
        http_server::STATUS_NOT_FOUND == 404,
        http_server::STATUS_INTERNAL_SERVER_ERROR == 500,
        http_server::WWW_AUTHENTICATE@ == "Basic realm=\"Access to API\""@,
{
}

/// A connection is never given up: each attempt that fails is made again, ten seconds later, and
/// each that succeeds leads to the subscription, whose end leads to the next attempt.
pub proof fn connection_is_never_given_up(event: LinkEvent)
    ensures
        match event {
            LinkEvent::Connected(outcome) => http_server::link_action(event) == if outcome is Ok {
                LinkAction::Subscribe
            } else {
                LinkAction::Wait(10)
            },
            LinkEvent::Unsubscribed(outcome) => http_server::link_action(event) == if outcome
                is Ok {
                LinkAction::Connect
            } else {
                LinkAction::Wait(10)
            },
            LinkEvent::Waited => http_server::link_action(event) == LinkAction::Connect,
        },
{
}

/// A request for a door opens the door of the device that it names, for the configured user, and
/// is refused exactly where it names none or one that is not known.
pub proof fn request_opens_the_door_it_names(state: StateView, id: Seq<char>)
    ensures
        state.vto_clients.contains_key(id) ==> http_server::asked_door(state, Some(id)) == Ok::<
            OpenDoorView,
            AnswerView,
        >(OpenDoorView { client: state.vto_clients[id], short_number: state.cfg.userid }),
        !state.vto_clients.contains_key(id) ==> http_server::asked_door(state, Some(id)) == Err::<
            OpenDoorView,
            AnswerView,
        >(http_server::failure(404, "VTO未找到"@)),
        http_server::asked_door(state, None) == Err::<OpenDoorView, AnswerView>(
            http_server::failure(400, "请求参数错误"@),
        ),
{
}

/// A failure is answered as one, with its whole reason, and only a failure is.
pub proof fn failures_are_answered_with_their_reasons(reason: Seq<char>)
    ensures
        http_server::opening_answer(Some(reason)) == http_server::failure(
            500,
            "执行开门操作错误: "@ + reason,
        ),
        http_server::opening_answer(None) == http_server::success(),
        http_server::tested_answer(Some(reason)) == http_server::failure(
            500,
            "callNotify测试错误: "@ + reason,
        ),
        http_server::tested_answer(None) == http_server::success(),
{
}

/// A press opens the button's own door exactly where the caller's was not opened, and a call opens
/// the door of the device that calls exactly where that is set; both as nobody in particular.
pub proof fn doors_open_where_they_should(state: StateView, client: usize)
    ensures
        http_server::press_opens(client, true) is None,
        http_server::press_opens(client, false) == Some(
            OpenDoorView { client, short_number: Seq::<char>::empty() },
        ),
        state.cfg.auto_open ==> http_server::opens_by_itself(state, client) == Some(
            OpenDoorView { client, short_number: Seq::<char>::empty() },
        ),
        !state.cfg.auto_open ==> http_server::opens_by_itself(state, client) is None,
{
}

} // verus!

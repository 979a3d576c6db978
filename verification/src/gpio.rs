//! The general purpose pins: which files are written and when, and what a pin reports.

use crate::course;
use crate::course::Course;
use crate::text;
use vstd::prelude::*;
use vstd::string::StringExecFns;

verus! {

pub const GPIO_BASE: &'static str = "/sys/class/gpio";

/// The name of the pin that notifies of calls where no other is set.
pub const DEF_GPIO_OUT: &'static str = "call_notify";

/// Milliseconds that a notification lasts.
pub const PULSE_MILLIS: u64 = 120;

/// Milliseconds that a pin takes to appear once it is exported.
pub const EXPORT_MILLIS: u64 = 100;

/// Milliseconds between two looks at a pin.
pub const POLL_MILLIS: u64 = 100;

/// The level that the first look at a pin is compared with.
pub const FIRST_LEVEL: i32 = 1;

/// Milliseconds until the next look at a pin that could not be read.
pub const RETRY_MILLIS: u64 = 500;

/// A step of driving a pin.
#[derive(Debug)]
pub enum Step {
    /// Write the text to the file.
    Write { path: String, text: String },
    /// Let so many milliseconds pass.
    Wait(u64),
}

pub enum StepView {
    Write { path: Seq<char>, text: Seq<char> },
    Wait(u64),
}

impl View for Step {
    type V = StepView;

    open spec fn view(&self) -> StepView {
        match *self {
            Step::Write { path, text } => StepView::Write { path: path@, text: text@ },
            Step::Wait(millis) => StepView::Wait(millis),
        }
    }
}

pub open spec fn steps_view(steps: Seq<Step>) -> Seq<StepView> {
    Seq::new(steps.len(), |i: int| steps[i]@)
}

/// The path of an entry in a directory. An absolute entry is its own path.
pub open spec fn joined(directory: Seq<char>, entry: Seq<char>) -> Seq<char> {
    if entry.len() > 0 && entry[0] == '/' {
        entry
    } else if directory.len() == 0 || directory.last() == '/' {
        directory + entry
    } else {
        directory + "/"@ + entry
    }
}

/// The directory of the pin with this name.
pub open spec fn pin_directory(gpio: Seq<char>) -> Seq<char> {
    joined(GPIO_BASE@, "gpio"@ + gpio)
}

/// What notifies of a call: a pulse on the pin, downwards on the default one and upwards on any
/// other.
pub open spec fn pulse(gpio: Seq<char>) -> Seq<StepView> {
    if gpio == DEF_GPIO_OUT@ {
        let path = joined(joined(GPIO_BASE@, gpio), "value"@);
        seq![
            StepView::Write { path, text: "0"@ },
            StepView::Wait(PULSE_MILLIS),
            StepView::Write { path, text: "1"@ },
        ]
    } else {
        let path = joined(pin_directory(gpio), "value"@);
        seq![
            StepView::Write { path, text: "1"@ },
            StepView::Wait(PULSE_MILLIS),
            StepView::Write { path, text: "0"@ },
        ]
    }
}

/// What prepares a pin, by whether it is exported already. The default pin and the empty name
/// need nothing.
pub open spec fn preparation(gpio: Seq<char>, is_out: bool, exported: bool) -> Seq<StepView> {
    if gpio == DEF_GPIO_OUT@ || gpio.len() == 0 {
        Seq::empty()
    } else {
        let direct = StepView::Write {
            path: joined(pin_directory(gpio), "direction"@),
            text: if is_out {
                "out"@
            } else {
                "in"@
            },
        };
        if exported {
            seq![direct]
        } else {
            seq![
                StepView::Write { path: joined(GPIO_BASE@, "export"@), text: gpio },
                StepView::Wait(EXPORT_MILLIS),
                direct,
            ]
        }
    }
}

fn join(directory: &str, entry: &str) -> (r: String)
    ensures
        r@ == joined(directory@, entry@),
{
    let d = text::char_vec(directory);
    let e = text::char_vec(entry);
    if e.len() > 0 && e[0] == '/' {
        return entry.to_owned();
    }
    let mut r = directory.to_owned();
    if !(d.len() == 0 || d[d.len() - 1] == '/') {
        r.append("/");
    }
    r.append(entry);
    r
}

/// The directory of the pin with this name.
pub fn pin_path(gpio: &str) -> (r: String)
    ensures
        r@ == pin_directory(gpio@),
{
    let mut name = "gpio".to_owned();
    name.append(gpio);
    join(GPIO_BASE, name.as_str())
}

/// What notifies of a call.
pub fn call_notify(gpio: &str) -> (r: Vec<Step>)
    ensures
        steps_view(r@) == pulse(gpio@),
{
    let mut steps: Vec<Step> = Vec::new();
    if !text::text_eq(gpio, DEF_GPIO_OUT) {
        let directory = pin_path(gpio);
        let path = join(directory.as_str(), "value");
        steps.push(Step::Write { path: path.clone(), text: "1".to_owned() });
        steps.push(Step::Wait(PULSE_MILLIS));
        steps.push(Step::Write { path, text: "0".to_owned() });
    } else {
        let directory = join(GPIO_BASE, gpio);
        let path = join(directory.as_str(), "value");
        steps.push(Step::Write { path: path.clone(), text: "0".to_owned() });
        steps.push(Step::Wait(PULSE_MILLIS));
        steps.push(Step::Write { path, text: "1".to_owned() });
    }
    assert(steps_view(steps@) =~= pulse(gpio@));
    steps
}

/// What prepares a pin, by whether it is exported already.
pub fn init_gpio(gpio: &str, is_out: bool, exported: bool) -> (r: Vec<Step>)
    ensures
        steps_view(r@) == preparation(gpio@, is_out, exported),
{
    let mut steps: Vec<Step> = Vec::new();
    if !(text::text_eq(gpio, DEF_GPIO_OUT) || gpio.is_empty()) {
        let directory = pin_path(gpio);
        if !exported {
            steps.push(Step::Write { path: join(GPIO_BASE, "export"), text: gpio.to_owned() });
            steps.push(Step::Wait(EXPORT_MILLIS));
        }
        let direction = if is_out {
            "out".to_owned()
        } else {
            "in".to_owned()
        };
        steps.push(Step::Write { path: join(directory.as_str(), "direction"), text: direction });
    }
    assert(steps_view(steps@) =~= preparation(gpio@, is_out, exported));
    steps
}

/// Whether a step must succeed for the next one to be taken: each write must.
pub open spec fn is_vital(step: StepView) -> bool {
    step is Write
}

/// Which steps of a plan must succeed.
pub open spec fn vital(steps: Seq<StepView>) -> Seq<bool> {
    Seq::new(steps.len(), |i: int| is_vital(steps[i]))
}

/// Where the driving of a pin stands once the step at a place was taken: a write that fails is the
/// result, and nothing follows it.
pub fn driven<E>(steps: &Vec<Step>, at: usize, outcome: Result<(), E>) -> (r: Course<E>)
    requires
        at < steps.len(),
    ensures
        r == course::after(vital(steps_view(steps@)), at as int, outcome),
{
    let must = matches!(steps[at], Step::Write { .. });
    course::proceed(steps.len(), at, must, outcome)
}

/// The file in which the pin of this number shows its level.
pub fn value_file(gpio_num: u16) -> (r: String)
    ensures
        r@ == joined(pin_directory(text::decimal(gpio_num as nat)), "value"@),
{
    let name = text::decimal_string(gpio_num as u64);
    let directory = pin_path(name.as_str());
    join(directory.as_str(), "value")
}

/// The level that the first byte of a pin's file shows.
pub open spec fn level(byte: u8) -> i32 {
    if byte == 48 {
        0
    } else {
        1
    }
}

/// The level that the first byte of a pin's file shows.
pub fn read_value(byte: u8) -> (r: i32)
    ensures
        r == level(byte),
{
    if byte == 48 {
        0
    } else {
        1
    }
}

/// What a look at a pin leads to: whether a press is reported, the level to compare the next
/// look with, and the milliseconds until then.
#[derive(Debug)]
pub struct Look {
    pub pressed: bool,
    pub level: i32,
    pub wait: u64,
}

/// Whether a level is a press, after the one seen before it: going down to 0.
pub open spec fn is_press(last: i32, now: i32) -> bool {
    now != last && now == 0
}

/// What a look at a pin leads to.
pub open spec fn look_at(last: i32, read: Option<i32>) -> Look {
    match read {
        None => Look { pressed: false, level: last, wait: RETRY_MILLIS },
        Some(now) => Look { pressed: is_press(last, now), level: now, wait: POLL_MILLIS },
    }
}

/// A look at a pin, where `last` is the level seen before, or `FIRST_LEVEL`, and `read` the level
/// now, `None` where it could not be read. Going down to 0 is a press.
pub fn watch_gpio(last: i32, read: Option<i32>) -> (r: Look)
    ensures
        r == look_at(last, read),
        r == match read {
            None => Look { pressed: false, level: last, wait: RETRY_MILLIS },
            Some(now) => Look { pressed: is_press(last, now), level: now, wait: POLL_MILLIS },
        },
{
    match read {
        None => Look { pressed: false, level: last, wait: RETRY_MILLIS },
        Some(now) => Look { pressed: now != last && now == 0, level: now, wait: POLL_MILLIS },
    }
}

/// How often a pin was pressed, by the levels seen one after the other.
pub open spec fn presses(last: i32, levels: Seq<i32>) -> nat
    decreases levels.len(),
{
    if levels.len() == 0 {
        0
    } else {
        presses(levels[0], levels.drop_first()) + if is_press(last, levels[0]) {
            1nat
        } else {
            0nat
        }
    }
}

/// A pin that is held down is pressed once, however often it is looked at.
pub proof fn held_pin_is_pressed_once(last: i32, n: nat)
    requires
        last != 0,
        n > 0,
    ensures
        presses(last, Seq::new(n, |i: int| 0i32)) == 1,
{
    let levels = Seq::new(n, |i: int| 0i32);
    lemma_steady(0, (n - 1) as nat);
    assert(levels.drop_first() =~= Seq::new((n - 1) as nat, |i: int| 0i32));
}

/// A pin that is down already when it is first looked at is pressed, and no other level that it
/// begins with is a press.
pub proof fn first_level_counts(levels: Seq<i32>)
    requires
        levels.len() > 0,
    ensures
        presses(FIRST_LEVEL, levels) == presses(levels[0], levels.drop_first()) + if levels[0]
            == 0 {
            1nat
        } else {
            0nat
        },
{
}

proof fn lemma_steady(level: i32, n: nat)
    ensures
        presses(level, Seq::new(n, |i: int| level)) == 0,
    decreases n,
{
    if n > 0 {
        lemma_steady(level, (n - 1) as nat);
        assert(Seq::new(n, |i: int| level).drop_first() =~= Seq::new(
            (n - 1) as nat,
            |i: int| level,
        ));
    }
}

/// A notification fails exactly where one of its two writes does. Where the first one fails, that
/// is the result and neither the pause nor the second write follows.
pub proof fn failed_write_ends_the_pulse<E>(gpio: Seq<char>, outcomes: Seq<Result<(), E>>)
    requires
        outcomes.len() == pulse(gpio).len(),
    ensures
        vital(pulse(gpio)) == seq![true, false, true],
        course::finish(vital(pulse(gpio)), outcomes, course::beginning(3), 0) == match (
            outcomes[0],
            outcomes[2],
        ) {
            (Err(e), _) => (1nat, Course::Failed(e)),
            (_, Err(e)) => (3nat, Course::Failed(e)),
            _ => (3nat, Course::Done),
        },
{
    assert(vital(pulse(gpio)) =~= seq![true, false, true]);
    reveal_with_fuel(course::finish, 4);
}

/// A pin is prepared exactly where each write succeeds. The first write that fails is the result,
/// and nothing follows it.
pub proof fn failed_write_ends_the_preparation<E>(
    gpio: Seq<char>,
    is_out: bool,
    exported: bool,
    outcomes: Seq<Result<(), E>>,
)
    requires
        outcomes.len() == preparation(gpio, is_out, exported).len(),
    ensures
        course::finish(
            vital(preparation(gpio, is_out, exported)),
            outcomes,
            course::beginning(outcomes.len()),
            0,
        ) == if outcomes.len() == 0 {
            (0nat, Course::Done)
        } else {
            match (outcomes[0], outcomes[outcomes.len() - 1]) {
                (Err(e), _) => (1nat, Course::Failed(e)),
                (_, Err(e)) => (outcomes.len(), Course::Failed(e)),
                _ => (outcomes.len(), Course::Done),
            }
        },
{
    let must = vital(preparation(gpio, is_out, exported));
    if outcomes.len() == 1 {
        assert(must =~= seq![true]);
    } else if outcomes.len() == 3 {
        assert(must =~= seq![true, false, true]);
    }
    reveal_with_fuel(course::finish, 4);
}

/// Only the default pin rests high: a pulse ends where it rests, and begins opposite to it.
pub proof fn pulse_returns_to_rest(gpio: Seq<char>)
    ensures
        pulse(gpio).len() == 3,
        pulse(gpio)[2] is Write,
        pulse(gpio)[2]->text == if gpio == DEF_GPIO_OUT@ {
            "1"@
        } else {
            "0"@
        },
        pulse(gpio)[0] is Write,
        pulse(gpio)[0]->path == pulse(gpio)[2]->path,
        pulse(gpio)[0]->text != pulse(gpio)[2]->text,
{
    reveal_strlit("0");
    reveal_strlit("1");
    assert("0"@[0] != "1"@[0]);
}

} // verus!

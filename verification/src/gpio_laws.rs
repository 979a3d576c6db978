//! What is done to the files of the pins, stated path by path.

use crate::course;
use crate::course::Course;
use crate::gpio;
use crate::gpio::{Step, StepView};
use crate::text;
use crate::text_laws;
use vstd::prelude::*;

verus! {

proof fn lemma_pin_paths(gpio: Seq<char>, entry: Seq<char>)
    requires
        entry.len() > 0,
        entry[0] != '/',
    ensures
        gpio.len() == 0 || gpio.last() != '/' ==> gpio::joined(gpio::pin_directory(gpio), entry)
            == "/sys/class/gpio/gpio"@ + gpio + "/"@ + entry,
        gpio.len() > 0 && gpio.last() == '/' ==> gpio::joined(gpio::pin_directory(gpio), entry)
            == "/sys/class/gpio/gpio"@ + gpio + entry,
        gpio::joined(gpio::GPIO_BASE@, entry) == "/sys/class/gpio"@ + "/"@ + entry,
{
    reveal_strlit("/sys/class/gpio");
    reveal_strlit("/sys/class/gpio/gpio");
    reveal_strlit("gpio");
    reveal_strlit("/");
    let name = "gpio"@ + gpio;
    assert(name[0] == 'g');
    assert("/sys/class/gpio"@.last() == 'o');
    let directory = gpio::pin_directory(gpio);
    assert(directory =~= "/sys/class/gpio/gpio"@ + gpio);
    if gpio.len() == 0 {
        assert(directory.last() == 'o');
    } else {
        assert(directory.last() == gpio.last());
    }
}

/// A call is notified of by two writes to the value of the pin's own directory, 120 milliseconds
/// apart: up and down again for any pin but the default one, which has a directory of its own name
/// and goes down and up again.
pub proof fn pulse_writes_to_the_pin(gpio: Seq<char>)
    ensures
        gpio != "call_notify"@ && (gpio.len() == 0 || gpio.last() != '/') ==> gpio::pulse(gpio)
            == seq![
            StepView::Write { path: "/sys/class/gpio/gpio"@ + gpio + "/"@ + "value"@, text: "1"@ },
            StepView::Wait(120),
            StepView::Write { path: "/sys/class/gpio/gpio"@ + gpio + "/"@ + "value"@, text: "0"@ },
        ],
        gpio != "call_notify"@ && gpio.len() > 0 && gpio.last() == '/' ==> gpio::pulse(gpio)
            == seq![
            StepView::Write { path: "/sys/class/gpio/gpio"@ + gpio + "value"@, text: "1"@ },
            StepView::Wait(120),
            StepView::Write { path: "/sys/class/gpio/gpio"@ + gpio + "value"@, text: "0"@ },
        ],
        gpio::pulse("call_notify"@) == seq![
            StepView::Write { path: "/sys/class/gpio/call_notify/value"@, text: "0"@ },
            StepView::Wait(120),
            StepView::Write { path: "/sys/class/gpio/call_notify/value"@, text: "1"@ },
        ],
{
    reveal_strlit("value");
    assert("value"@[0] == 'v');
    lemma_pin_paths(gpio, "value"@);
    reveal_strlit("/sys/class/gpio");
    reveal_strlit("/");
    reveal_strlit("call_notify");
    reveal_strlit("/sys/class/gpio/call_notify/value");
    let directory = gpio::joined(gpio::GPIO_BASE@, "call_notify"@);
    assert("call_notify"@[0] == 'c');
    assert("/sys/class/gpio"@.last() == 'o');
    assert(directory == "/sys/class/gpio"@ + "/"@ + "call_notify"@);
    assert(directory.last() == 'y');
    assert(gpio::joined(directory, "value"@) =~= "/sys/class/gpio/call_notify/value"@);
}

/// A pin is prepared by exporting it, where it is not there yet, and 100 milliseconds later by
/// setting its direction. The default pin and the empty name are left alone.
pub proof fn preparation_exports_and_directs(gpio: Seq<char>, is_out: bool, exported: bool)
    ensures
        gpio == "call_notify"@ || gpio.len() == 0 ==> gpio::preparation(gpio, is_out, exported)
            == Seq::<StepView>::empty(),
        gpio != "call_notify"@ && gpio.len() > 0 ==> {
            let steps = gpio::preparation(gpio, is_out, exported);
            &&& steps.len() == if exported {
                1nat
            } else {
                3nat
            }
            &&& steps.last() == (StepView::Write {
                path: if gpio.last() == '/' {
                    "/sys/class/gpio/gpio"@ + gpio + "direction"@
                } else {
                    "/sys/class/gpio/gpio"@ + gpio + "/"@ + "direction"@
                },
                text: if is_out {
                    "out"@
                } else {
                    "in"@
                },
            })
            &&& !exported ==> steps[0] == (StepView::Write {
                path: "/sys/class/gpio"@ + "/"@ + "export"@,
                text: gpio,
            }) && steps[1] == StepView::Wait(100)
        },
{
    reveal_strlit("direction");
    reveal_strlit("export");
    assert("direction"@[0] == 'd' && "export"@[0] == 'e');
    lemma_pin_paths(gpio, "direction"@);
    lemma_pin_paths(gpio, "export"@);
}

/// The value of a numbered pin stands in the directory of its number.
pub proof fn numbered_pin_has_its_file(n: u16)
    ensures
        gpio::pin_directory(text::decimal(n as nat)) == "/sys/class/gpio/gpio"@ + text::decimal(
            n as nat,
        ),
        gpio::joined(gpio::pin_directory(text::decimal(n as nat)), "value"@)
            == "/sys/class/gpio/gpio"@ + text::decimal(n as nat) + "/"@ + "value"@,
{
    reveal_strlit("value");
    assert("value"@[0] == 'v');
    let name = text::decimal(n as nat);
    text_laws::number_is_written_plainly(n);
    assert('0' <= name[name.len() - 1] <= '9');
    lemma_pin_paths(name, "value"@);
    reveal_strlit("/sys/class/gpio");
    reveal_strlit("/sys/class/gpio/gpio");
    reveal_strlit("gpio");
    reveal_strlit("/");
    assert(("gpio"@ + name)[0] == 'g');
    assert(gpio::pin_directory(name) =~= "/sys/class/gpio/gpio"@ + name);
}

/// Only the digit 0 is low, and only going down from another level to low is a press.
pub proof fn low_is_zero_and_pressing_is_going_low(byte: u8, last: i32, now: i32)
    ensures
        gpio::level(byte) == 0 <==> byte == 48,
        gpio::level(byte) == 0 || gpio::level(byte) == 1,
        gpio::is_press(last, now) <==> last != 0 && now == 0,
{
}

/// Levels that are seen one after the other hold as many presses as their parts, where the second
/// part follows the last level of the first.
pub proof fn presses_add_up(last: i32, first: Seq<i32>, rest: Seq<i32>)
    ensures
        gpio::presses(last, first + rest) == gpio::presses(last, first) + gpio::presses(
            if first.len() == 0 {
                last
            } else {
                first.last()
            },
            rest,
        ),
        gpio::presses(last, Seq::<i32>::empty()) == 0,
    decreases first.len(),
{
    if first.len() == 0 {
        assert(first + rest =~= rest);
    } else {
        let tail = first.drop_first();
        presses_add_up(first[0], tail, rest);
        assert((first + rest).drop_first() =~= tail + rest);
        assert((first + rest)[0] == first[0]);
    }
}

/// A step is what its view says, and each write must succeed while a pause cannot fail.
pub proof fn steps_are_what_they_show(steps: Seq<Step>, i: int)
    requires
        0 <= i < steps.len(),
    ensures
        gpio::steps_view(steps).len() == steps.len(),
        gpio::steps_view(steps)[i] == match steps[i] {
            Step::Write { path, text } => StepView::Write { path: path@, text: text@ },
            Step::Wait(millis) => StepView::Wait(millis),
        },
        gpio::vital(gpio::steps_view(steps)).len() == steps.len(),
        gpio::vital(gpio::steps_view(steps))[i] == (steps[i] is Write),
{
}

/// A plan goes on behind a step unless the step failed and must succeed; it ends behind its last
/// step, and at once where it has none.
pub proof fn plan_goes_on_unless_it_must_not<E>(must: Seq<bool>, at: int, outcome: Result<(), E>)
    requires
        0 <= at < must.len() <= usize::MAX,
    ensures
        course::after(must, at, outcome) is Failed <==> must[at] && outcome is Err,
        must[at] && outcome is Err ==> course::after(must, at, outcome)->Failed_0 == outcome->Err_0,
        !(must[at] && outcome is Err) ==> (if at + 1 < must.len() {
            course::after(must, at, outcome) is Next && course::after(must, at, outcome)->Next_0
                == at + 1
        } else {
            course::after(must, at, outcome) is Done
        }),
        course::beginning::<E>(must.len()) is Next && course::beginning::<E>(must.len())->Next_0
            == 0,
        course::beginning::<E>(0) is Done,
{
}

/// A pin is looked at ten times a second, half a second after it could not be read, and as if it
/// had been high before the first look.
pub proof fn pins_are_looked_at_often()
    ensures
        gpio::POLL_MILLIS == 100,
        gpio::RETRY_MILLIS == 500,
        gpio::FIRST_LEVEL == 1,
{
}

/// A look reports a press exactly where the pin went low since the last look that could read it; a
/// look that cannot read it forgets nothing.
pub proof fn look_sees_the_level(last: i32, now: i32)
    ensures
        gpio::look_at(last, Some(now)).pressed <==> last != 0 && now == 0,
        gpio::look_at(last, Some(now)).level == now,
        gpio::look_at(last, Some(now)).wait == 100,
        !gpio::look_at(last, None).pressed,
        gpio::look_at(last, None).level == last,
        gpio::look_at(last, None).wait == 500,
{
}

} // verus!

use dahuavto::course::{begin, Course};
use dahuavto::gpio::{
    call_notify, driven, init_gpio, pin_path, read_value, value_file, watch_gpio, Step, FIRST_LEVEL,
};

fn shown(steps: &[Step]) -> Vec<String> {
    steps
        .iter()
        .map(|step| match step {
            Step::Write { path, text } => format!("{}={}", path, text),
            Step::Wait(millis) => format!("{}", millis),
        })
        .collect()
}

#[test]
fn pin_is_pulsed_upwards() {
    assert_eq!(
        shown(&call_notify("17")),
        vec!["/sys/class/gpio/gpio17/value=1", "120", "/sys/class/gpio/gpio17/value=0"]
    );
}

#[test]
fn default_pin_is_pulsed_downwards() {
    assert_eq!(
        shown(&call_notify("call_notify")),
        vec!["/sys/class/gpio/call_notify/value=0", "120", "/sys/class/gpio/call_notify/value=1"]
    );
}

#[test]
fn pin_is_prepared() {
    assert_eq!(
        shown(&init_gpio("516", false, false)),
        vec!["/sys/class/gpio/export=516", "100", "/sys/class/gpio/gpio516/direction=in"]
    );
    assert_eq!(
        shown(&init_gpio("516", true, true)),
        vec!["/sys/class/gpio/gpio516/direction=out"]
    );
}

#[test]
fn some_pins_need_no_preparation() {
    assert!(init_gpio("", true, false).is_empty());
    assert!(init_gpio("call_notify", true, false).is_empty());
}

#[test]
fn paths_are_those_of_the_standard_library() {
    for name in ["17", "a/b", "", "x/"] {
        let joined = std::path::Path::new("/sys/class/gpio").join(format!("gpio{}", name));
        assert_eq!(pin_path(name), joined.to_str().unwrap());
    }
    assert_eq!(value_file(516), "/sys/class/gpio/gpio516/value");
    assert_eq!(value_file(0), "/sys/class/gpio/gpio0/value");
}

#[test]
fn trailing_slash_is_not_doubled() {
    assert_eq!(
        shown(&call_notify("x/")),
        vec!["/sys/class/gpio/gpiox/value=1", "120", "/sys/class/gpio/gpiox/value=0"]
    );
}

#[test]
fn level_is_read() {
    assert_eq!(read_value(b'0'), 0);
    assert_eq!(read_value(b'1'), 1);
    assert_eq!(read_value(b'\n'), 1);
}

#[test]
fn press_is_seen_once() {
    let mut last = FIRST_LEVEL;
    let mut presses = 0;
    for level in [Some(1), Some(0), Some(0), None, Some(0), Some(1), Some(0)] {
        let look = watch_gpio(last, level);
        if look.pressed {
            presses += 1;
        }
        assert_eq!(look.wait, if level.is_some() { 100 } else { 500 });
        last = look.level;
    }
    assert_eq!(presses, 2);
}

#[test]
fn pin_that_begins_low_is_pressed() {
    assert!(watch_gpio(FIRST_LEVEL, Some(0)).pressed);
    assert!(!watch_gpio(FIRST_LEVEL, Some(1)).pressed);
}

fn run(steps: &Vec<Step>, failing: &[usize]) -> (Vec<usize>, Result<(), usize>) {
    let mut taken = Vec::new();
    let mut course = begin(steps.len());
    loop {
        match course {
            Course::Next(at) => {
                taken.push(at);
                let outcome = if failing.contains(&at) { Err(at) } else { Ok(()) };
                course = driven(steps, at, outcome);
            }
            Course::Done => return (taken, Ok(())),
            Course::Failed(e) => return (taken, Err(e)),
        }
    }
}

#[test]
fn failed_write_is_the_result_and_the_last_step() {
    let steps = call_notify("17");
    assert_eq!(run(&steps, &[]), (vec![0, 1, 2], Ok(())));
    assert_eq!(run(&steps, &[0, 2]), (vec![0], Err(0)));
    assert_eq!(run(&steps, &[2]), (vec![0, 1, 2], Err(2)));
    let steps = init_gpio("17", true, false);
    assert_eq!(run(&steps, &[0]), (vec![0], Err(0)));
    assert_eq!(run(&steps, &[2]), (vec![0, 1, 2], Err(2)));
    let steps = init_gpio("17", true, true);
    assert_eq!(run(&steps, &[0]), (vec![0], Err(0)));
    assert_eq!(run(&init_gpio("", true, false), &[]), (vec![], Ok(())));
}

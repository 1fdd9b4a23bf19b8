//! The media keys: a line per key from the compositor, and what each does to the default sink
//! and source and to the backlight.
use vstd::prelude::*;
use vstd::string::*;

use crate::bridge::bus::{lossy, lossy_text};
use crate::text::{
    chars_of, decimal, number, parse_u64, quote, quoted, same_text, string_of, trim, trimmed,
    u64_fault, unsigned,
};
use crate::views::{group_views, views};

verus! {

/// Where the panels are.
pub const BACKLIGHT: &'static str = "/sys/class/backlight";

/// What a key does. `L` is a list of texts.
#[derive(Debug)]
pub enum Key<L> {
    /// wpctl runs with these arguments.
    Volume { args: L },
    /// Every panel goes one step up or down.
    Brightness { up: bool },
}

impl View for Key<Vec<String>> {
    type V = Key<Seq<Seq<char>>>;

    open spec fn view(&self) -> Key<Seq<Seq<char>>> {
        match *self {
            Key::Volume { args } => Key::Volume { args: views(args@) },
            Key::Brightness { up } => Key::Brightness { up },
        }
    }
}

/// What a line stands for; `step` is how much the volume changes, in percent. The volume goes
/// up to full and no further.
pub open spec fn key_of(line: Seq<char>, step: u32) -> Option<Key<Seq<Seq<char>>>> {
    let by = decimal(step as nat);
    if line == "volume up"@ {
        Some(
            Key::Volume {
                args: seq!["set-volume"@, "-l"@, "1.0"@, "@DEFAULT_AUDIO_SINK@"@, by + "%+"@],
            },
        )
    } else if line == "volume down"@ {
        Some(Key::Volume { args: seq!["set-volume"@, "@DEFAULT_AUDIO_SINK@"@, by + "%-"@] })
    } else if line == "volume mute"@ {
        Some(Key::Volume { args: seq!["set-mute"@, "@DEFAULT_AUDIO_SINK@"@, "toggle"@] })
    } else if line == "mic mute"@ {
        Some(Key::Volume { args: seq!["set-mute"@, "@DEFAULT_AUDIO_SOURCE@"@, "toggle"@] })
    } else if line == "brightness up"@ {
        Some(Key::Brightness { up: true })
    } else if line == "brightness down"@ {
        Some(Key::Brightness { up: false })
    } else {
        None
    }
}

/// What a line stands for.
pub fn read_key(line: &str, step: u32) -> (r: Result<Key<Vec<String>>, String>)
    ensures
        match r {
            Ok(key) => key_of(line@, step) == Some(key@),
            Err(e) => key_of(line@, step) is None && e@ == "not a key: "@ + quoted(line@),
        },
{
    broadcast use group_views;

    let mut args: Vec<String> = Vec::new();
    let mut by = number(step as u64);
    if same_text(line, "volume up") {
        args.push("set-volume".to_owned());
        args.push("-l".to_owned());
        args.push("1.0".to_owned());
        args.push("@DEFAULT_AUDIO_SINK@".to_owned());
        by.append("%+");
        args.push(by);
        assert(views(args@) =~= seq![
            "set-volume"@,
            "-l"@,
            "1.0"@,
            "@DEFAULT_AUDIO_SINK@"@,
            decimal(step as nat) + "%+"@,
        ]);
        return Ok(Key::Volume { args });
    }
    if same_text(line, "volume down") {
        args.push("set-volume".to_owned());
        args.push("@DEFAULT_AUDIO_SINK@".to_owned());
        by.append("%-");
        args.push(by);
        assert(views(args@) =~= seq![
            "set-volume"@,
            "@DEFAULT_AUDIO_SINK@"@,
            decimal(step as nat) + "%-"@,
        ]);
        return Ok(Key::Volume { args });
    }
    if same_text(line, "volume mute") {
        args.push("set-mute".to_owned());
        args.push("@DEFAULT_AUDIO_SINK@".to_owned());
        args.push("toggle".to_owned());
        assert(views(args@) =~= seq!["set-mute"@, "@DEFAULT_AUDIO_SINK@"@, "toggle"@]);
        return Ok(Key::Volume { args });
    }
    if same_text(line, "mic mute") {
        args.push("set-mute".to_owned());
        args.push("@DEFAULT_AUDIO_SOURCE@".to_owned());
        args.push("toggle".to_owned());
        assert(views(args@) =~= seq!["set-mute"@, "@DEFAULT_AUDIO_SOURCE@"@, "toggle"@]);
        return Ok(Key::Volume { args });
    }
    if same_text(line, "brightness up") {
        return Ok(Key::Brightness { up: true });
    }
    if same_text(line, "brightness down") {
        return Ok(Key::Brightness { up: false });
    }
    let mut text = "not a key: ".to_owned();
    text.append(quote(line).as_str());
    Err(text)
}

/// What is said of a wpctl that failed with this status.
pub fn wpctl_failed(status: &str, stderr: &Vec<u8>) -> (r: String)
    ensures
        r@ == "wpctl: "@ + status@ + ": "@ + trimmed(lossy_text(stderr@)),
{
    let said = trim(&chars_of(lossy(stderr).as_str()));
    assert(said@.subrange(0, said@.len() as int) =~= said@);
    let mut text = "wpctl: ".to_owned();
    text.append(status);
    text.append(": ");
    text.append(string_of(&said, 0, said.len()).as_str());
    text
}

/// One step of a panel, of its maximum: at least one.
pub open spec fn step_of(max: int, percent: int) -> int {
    if max * percent / 100 < 1 {
        1
    } else {
        max * percent / 100
    }
}

/// Where a panel goes from `now`: one step up but not over its maximum, or one step down but
/// not below the floor, where the panel goes that high.
pub open spec fn wanted(max: int, now: int, percent: int, floor: int, up: bool) -> int {
    let step = step_of(max, percent);
    if up {
        if now + step < max {
            now + step
        } else {
            max
        }
    } else {
        let low = if floor < max {
            floor
        } else {
            max
        };
        if now - step > low {
            now - step
        } else {
            low
        }
    }
}

/// Where a panel goes from `now`.
pub fn want(max: u64, now: u64, percent: u64, floor: u64, up: bool) -> (r: u64)
    requires
        max * percent <= u64::MAX,
    ensures
        r == wanted(max as int, now as int, percent as int, floor as int, up),
{
    let part = max * percent / 100;
    let step = if part < 1 {
        1
    } else {
        part
    };
    if up {
        if step < max && now < max - step {
            now + step
        } else {
            max
        }
    } else {
        let low = if floor < max {
            floor
        } else {
            max
        };
        if now > step && now - step > low {
            now - step
        } else {
            low
        }
    }
}

/// The number in a file of sysfs.
pub fn read_number(path: &str, text: &str) -> (r: Result<u64, String>)
    ensures
        match r {
            Ok(n) => unsigned(trimmed(text@), u64::MAX as nat) == Some(n as nat),
            Err(e) => unsigned(trimmed(text@), u64::MAX as nat) is None && e@ == path@ + ": "@
                + quoted(text@) + ": "@ + u64_fault(trimmed(text@)),
        },
{
    let digits = trim(&chars_of(text));
    assert(digits@.subrange(0, digits@.len() as int) =~= digits@);
    match parse_u64(string_of(&digits, 0, digits.len()).as_str()) {
        Ok(n) => Ok(n),
        Err(e) => {
            let mut why = path.to_owned();
            why.append(": ");
            why.append(quote(text).as_str());
            why.append(": ");
            why.append(e.as_str());
            Err(why)
        },
    }
}

/// A panel never leaves its range, and goes dark but not off where the floor says so; each step
/// moves it unless it is already there.
pub proof fn panels_stay_in_range(max: int, now: int, percent: int, floor: int, up: bool)
    requires
        0 <= now <= max,
        0 <= floor,
        0 <= percent,
    ensures
        0 <= wanted(max, now, percent, floor, up) <= max,
        !up ==> wanted(max, now, percent, floor, up) >= floor || wanted(
            max,
            now,
            percent,
            floor,
            up,
        ) == max,
        up && now < max ==> wanted(max, now, percent, floor, up) > now,
        !up && now > floor && floor < max ==> wanted(max, now, percent, floor, up) < now,
{
}

/// A step up or down is the same share of the panel's maximum, rounded down and at least one:
/// away from the ends the panel moves by just that, and a step down undoes a step up.
pub proof fn a_step_is_a_share(max: int, now: int, percent: int, floor: int)
    requires
        0 <= percent,
        0 <= floor < max,
        0 <= now <= max,
    ensures
        ({
            let up = wanted(max, now, percent, floor, true);
            let down = wanted(max, now, percent, floor, false);
            let share = max * percent;
            &&& up < max ==> {
                let step = up - now;
                &&& step == 1 && share < 200 || step * 100 <= share < (step + 1) * 100
                &&& now >= floor ==> wanted(max, up, percent, floor, false) == now
            }
            &&& down > floor ==> {
                let step = now - down;
                &&& step == 1 && share < 200 || step * 100 <= share < (step + 1) * 100
            }
        }),
{
    let share = max * percent;
    assert(share >= 0) by (nonlinear_arith)
        requires
            max >= 0,
            percent >= 0,
            share == max * percent,
    ;
}

/// The lines that are keys, and what each is: the volume goes up no further than full, and
/// muting goes by sink or source; any other line is none.
pub proof fn the_keys_there_are(line: Seq<char>, step: u32)
    ensures
        ({
            let by = decimal(step as nat);
            let sink = "@DEFAULT_AUDIO_SINK@"@;
            let key = key_of(line, step);
            &&& line == "volume up"@ ==> key == Some(
                Key::Volume { args: seq!["set-volume"@, "-l"@, "1.0"@, sink, by + "%+"@] },
            )
            &&& line == "volume down"@ ==> key == Some(
                Key::Volume { args: seq!["set-volume"@, sink, by + "%-"@] },
            )
            &&& line == "volume mute"@ ==> key == Some(
                Key::Volume { args: seq!["set-mute"@, sink, "toggle"@] },
            )
            &&& line == "mic mute"@ ==> key == Some(
                Key::Volume { args: seq!["set-mute"@, "@DEFAULT_AUDIO_SOURCE@"@, "toggle"@] },
            )
            &&& line == "brightness up"@ ==> key == Some(
                Key::<Seq<Seq<char>>>::Brightness { up: true },
            )
            &&& line == "brightness down"@ ==> key == Some(
                Key::<Seq<Seq<char>>>::Brightness { up: false },
            )
            &&& key is Some ==> line == "volume up"@ || line == "volume down"@ || line
                == "volume mute"@ || line == "mic mute"@ || line == "brightness up"@ || line
                == "brightness down"@
        }),
{
    reveal_strlit("volume up");
    reveal_strlit("volume down");
    reveal_strlit("volume mute");
    reveal_strlit("mic mute");
    reveal_strlit("brightness up");
    reveal_strlit("brightness down");
    assert("volume up"@.len() == 9);
    assert("volume down"@.len() == 11);
    assert("volume mute"@.len() == 11);
    assert("mic mute"@.len() == 8);
    assert("brightness up"@.len() == 13);
    assert("brightness down"@.len() == 15);
    assert("volume down"@[7] == 'd');
    assert("volume mute"@[7] == 'm');
}

} // verus!

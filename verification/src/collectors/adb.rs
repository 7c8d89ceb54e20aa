//! Device adapter: turns the two bridge tools' list output into typed
//! device records.
//!
//! The first tool's output carries a header line and a connection state per
//! device; entries in the "offline" state are dropped.  The second tool's
//! entries are all tagged with a fixed state.

use vstd::prelude::*;
use crate::config::Config;
use crate::context::{AdbDevice, AdbDeviceV};
use crate::strutil::{lemma_deep_view_split, split_ws, str_eq, ws_tokens};

verus! {

/// The device record one line of the bridge tool's output yields: serial
/// and state are its first two whitespace-separated tokens; lines with
/// fewer tokens and offline devices yield nothing.
pub open spec fn adb_device_of(line: Seq<char>) -> Option<AdbDeviceV> {
    let t = ws_tokens(line);
    if t.len() >= 2 && t[1] != "offline"@ {
        Some(AdbDeviceV { serial: t[0], state: t[1], device_type: "adb"@ })
    } else {
        None
    }
}

/// The device record one line of the flash tool's output yields: the first
/// token is the serial; state and kind are fixed.
pub open spec fn fastboot_device_of(line: Seq<char>) -> Option<AdbDeviceV> {
    let t = ws_tokens(line);
    if t.len() >= 1 {
        Some(AdbDeviceV { serial: t[0], state: "fastboot"@, device_type: "fastboot"@ })
    } else {
        None
    }
}

/// The devices a sequence of bridge-tool lines yields, in order.
pub open spec fn adb_devices_of(lines: Seq<Seq<char>>) -> Seq<AdbDeviceV>
    decreases lines.len(),
{
    if lines.len() == 0 {
        Seq::empty()
    } else {
        adb_devices_of(lines.drop_last()) + match adb_device_of(lines.last()) {
            Some(d) => seq![d],
            None => Seq::empty(),
        }
    }
}

/// The devices a sequence of flash-tool lines yields, in order.
pub open spec fn fastboot_devices_of(lines: Seq<Seq<char>>) -> Seq<AdbDeviceV>
    decreases lines.len(),
{
    if lines.len() == 0 {
        Seq::empty()
    } else {
        fastboot_devices_of(lines.drop_last()) + match fastboot_device_of(lines.last()) {
            Some(d) => seq![d],
            None => Seq::empty(),
        }
    }
}

/// A sequence of lines without its header line.
pub open spec fn drop_header(lines: Seq<Seq<char>>) -> Seq<Seq<char>> {
    if lines.len() >= 1 {
        lines.drop_first()
    } else {
        lines
    }
}

/// The full device list of one run: the bridge tool's devices (header line
/// skipped) followed by the flash tool's, either part empty when the tool
/// failed.
pub open spec fn devices_of(
    adb_lines: Option<Seq<Seq<char>>>,
    fastboot_lines: Option<Seq<Seq<char>>>,
) -> Seq<AdbDeviceV> {
    (match adb_lines {
        Some(ls) => adb_devices_of(drop_header(ls)),
        None => Seq::<AdbDeviceV>::empty(),
    }) + (match fastboot_lines {
        Some(ls) => fastboot_devices_of(ls),
        None => Seq::<AdbDeviceV>::empty(),
    })
}

fn push_adb_line(out: &mut Vec<AdbDevice>, line: &str)
    ensures
        final(out).deep_view() == old(out).deep_view() + match adb_device_of(line@) {
            Some(d) => seq![d],
            None => Seq::<AdbDeviceV>::empty(),
        },
{
    let tokens = split_ws(line);
    proof {
        lemma_deep_view_split(tokens);
    }
    if tokens.len() >= 2 && !str_eq(tokens[1].as_str(), "offline") {
        let ghost pre = *out;
        let d = AdbDevice {
            serial: tokens[0].clone(),
            state: tokens[1].clone(),
            device_type: String::from_str("adb"),
        };
        out.push(d);
        proof {
            lemma_deep_view_split(pre);
            lemma_deep_view_split(*out);
            assert(adb_device_of(line@) == Some(d@));
            assert forall|j: int| 0 <= j < out@.len() implies out.deep_view()[j] == (
            pre.deep_view() + seq![d@])[j] by {
                assert(out.deep_view()[j] == out@[j].deep_view());
                if j < pre@.len() {
                    assert(out@[j] == pre@[j]);
                    assert(pre.deep_view()[j] == pre@[j].deep_view());
                } else {
                    assert(out@[j] == d);
                }
            }
            assert(out.deep_view() =~= pre.deep_view() + seq![d@]);
        }
    } else {
        assert(out.deep_view() =~= out.deep_view() + Seq::<AdbDeviceV>::empty());
    }
}

fn push_fastboot_line(out: &mut Vec<AdbDevice>, line: &str)
    ensures
        final(out).deep_view() == old(out).deep_view() + match fastboot_device_of(line@) {
            Some(d) => seq![d],
            None => Seq::<AdbDeviceV>::empty(),
        },
{
    let tokens = split_ws(line);
    proof {
        lemma_deep_view_split(tokens);
    }
    if tokens.len() >= 1 {
        let ghost pre = *out;
        let d = AdbDevice {
            serial: tokens[0].clone(),
            state: String::from_str("fastboot"),
            device_type: String::from_str("fastboot"),
        };
        out.push(d);
        proof {
            lemma_deep_view_split(pre);
            lemma_deep_view_split(*out);
            assert(fastboot_device_of(line@) == Some(d@));
            assert forall|j: int| 0 <= j < out@.len() implies out.deep_view()[j] == (
            pre.deep_view() + seq![d@])[j] by {
                assert(out.deep_view()[j] == out@[j].deep_view());
                if j < pre@.len() {
                    assert(out@[j] == pre@[j]);
                    assert(pre.deep_view()[j] == pre@[j].deep_view());
                } else {
                    assert(out@[j] == d);
                }
            }
            assert(out.deep_view() =~= pre.deep_view() + seq![d@]);
        }
    } else {
        assert(out.deep_view() =~= out.deep_view() + Seq::<AdbDeviceV>::empty());
    }
}

/// Build the device list from the two tools' raw output.
pub fn collect_adb_devices(
    adb_lines: &Option<Vec<String>>,
    fastboot_lines: &Option<Vec<String>>,
) -> (r: Vec<AdbDevice>)
    ensures
        r.deep_view() == devices_of(adb_lines.deep_view(), fastboot_lines.deep_view()),
{
    let mut out: Vec<AdbDevice> = Vec::new();
    proof {
        assert(out.deep_view() =~= Seq::<AdbDeviceV>::empty());
    }
    match adb_lines {
        Some(lines) => {
            let ghost body = drop_header(lines.deep_view());
            let mut i: usize = 1;
            proof {
                assert(adb_devices_of(body.take(0)) =~= Seq::<AdbDeviceV>::empty());
                assert(out.deep_view() =~= adb_devices_of(body.take(0)));
            }
            while i < lines.len()
                invariant
                    1 <= i <= lines@.len() || (lines@.len() == 0 && i == 1),
                    body == drop_header(lines.deep_view()),
                    body.len() == (if lines@.len() >= 1 { lines@.len() - 1 } else { 0int }),
                    forall|j: int| 0 <= j < body.len() ==> body[j] == lines.deep_view()[j + 1],
                    out.deep_view() == adb_devices_of(body.take(i - 1)),
                decreases lines@.len() - i,
            {
                push_adb_line(&mut out, lines[i].as_str());
                proof {
                    assert(body.take(i as int).drop_last() =~= body.take(i - 1));
                    assert(body.take(i as int).last() == lines.deep_view()[i as int]);
                    assert(lines.deep_view()[i as int] == lines@[i as int]@);
                }
                i = i + 1;
            }
            proof {
                if lines@.len() >= 1 {
                    assert(body.take(i - 1) =~= body);
                } else {
                    assert(body.take(i - 1) =~= body);
                }
            }
        },
        None => {},
    }
    let ghost adb_part = out.deep_view();
    match fastboot_lines {
        Some(lines) => {
            let mut i: usize = 0;
            proof {
                assert(fastboot_devices_of(lines.deep_view().take(0)) =~= Seq::<
                    AdbDeviceV,
                >::empty());
                assert(out.deep_view() =~= adb_part + fastboot_devices_of(
                    lines.deep_view().take(0),
                ));
            }
            while i < lines.len()
                invariant
                    0 <= i <= lines@.len(),
                    adb_part == devices_of_first_part(adb_lines.deep_view()),
                    out.deep_view() == adb_part + fastboot_devices_of(
                        lines.deep_view().take(i as int),
                    ),
                decreases lines@.len() - i,
            {
                push_fastboot_line(&mut out, lines[i].as_str());
                proof {
                    assert(lines.deep_view().take(i + 1).drop_last() =~= lines.deep_view().take(
                        i as int,
                    ));
                    assert(lines.deep_view().take(i + 1).last() == lines@[i as int]@);
                }
                i = i + 1;
            }
            assert(lines.deep_view().take(i as int) =~= lines.deep_view());
        },
        None => {
            assert(out.deep_view() =~= adb_part + Seq::<AdbDeviceV>::empty());
        },
    }
    out
}

/// The part of the device list the bridge tool contributes.
pub open spec fn devices_of_first_part(adb_lines: Option<Seq<Seq<char>>>) -> Seq<AdbDeviceV> {
    match adb_lines {
        Some(ls) => adb_devices_of(drop_header(ls)),
        None => Seq::<AdbDeviceV>::empty(),
    }
}

/// Whether the device collector runs: what the configuration says when it
/// says anything, else only for projects of the recognised bridge-friendly
/// type.
pub open spec fn adb_enabled_spec(config: &Config) -> bool {
    match config.adb {
        Some(a) => match a.enabled {
            Some(b) => b,
            None => adb_auto_enabled(config),
        },
        None => adb_auto_enabled(config),
    }
}

/// The auto-enable rule: the project type equals "aosp".
pub open spec fn adb_auto_enabled(config: &Config) -> bool {
    match config.project {
        Some(p) => match p.project_type {
            Some(t) => t@ == "aosp"@,
            None => false,
        },
        None => false,
    }
}

/// The device collector.
pub struct AdbCollector;

impl crate::collectors::traits::Collector for AdbCollector {
    open spec fn spec_name(&self) -> Seq<char> {
        "adb"@
    }

    open spec fn spec_enabled(&self, config: &Config) -> bool {
        adb_enabled_spec(config)
    }

    open spec fn spec_collect(
        &self,
        config: &Config,
        raw: &crate::raw::RawInputs,
        ctx: crate::context::ContextV,
    ) -> crate::context::ContextV {
        crate::context::ContextV {
            adb_devices: devices_of(raw.adb_lines.deep_view(), raw.fastboot_lines.deep_view()),
            ..ctx
        }
    }

    fn name(&self) -> (r: &'static str) {
        "adb"
    }

    fn is_enabled(&self, config: &Config) -> (r: bool) {
        match &config.adb {
            Some(a) => match a.enabled {
                Some(b) => b,
                None => adb_auto(config),
            },
            None => adb_auto(config),
        }
    }

    fn collect(
        &self,
        config: &Config,
        raw: &crate::raw::RawInputs,
        ctx: &mut crate::context::Context,
    ) {
        ctx.adb_devices = collect_adb_devices(&raw.adb_lines, &raw.fastboot_lines);
    }
}

/// Whether the auto-enable rule applies: the project type is "aosp".
fn adb_auto(config: &Config) -> (r: bool)
    ensures
        r == adb_auto_enabled(config),
{
    match &config.project {
        Some(p) => match &p.project_type {
            Some(t) => str_eq(t.as_str(), "aosp"),
            None => false,
        },
        None => false,
    }
}

} // verus!

//! Texts and geometry of the terminal interface.

use crate::select::DeviceLabel;
use crate::settings::BatteryInfo;
use crate::text::{
    dec, dec2, dec_string, padded_right, push_dec, push_dec2, push_padded_right,
};
use crate::tui_input::Area;
use crate::tui_state::{two, App, BatterySource, PickerItem};
use vstd::prelude::*;

verus! {

/// The title line.
pub open spec fn title(connected: bool, device_name: Seq<char>) -> Seq<char> {
    if connected && device_name.len() > 0 {
        device_name + " - Configuration Tool"@
    } else {
        "MonsGeek/Akko Keyboard - Configuration Tool"@
    }
}

/// The sign of a battery level.
pub open spec fn battery_sign(b: BatteryInfo) -> Seq<char> {
    if b.charging {
        "⚡"@
    } else if b.level > 75 {
        "█"@
    } else if b.level > 50 {
        "▆"@
    } else if b.level > 25 {
        "▃"@
    } else {
        "▁"@
    }
}

/// The letter of a battery source.
pub open spec fn source_letter(source: Option<BatterySource>) -> Seq<char> {
    match source {
        Some(BatterySource::Kernel(_)) => "k"@,
        Some(BatterySource::Vendor) => "v"@,
        None => "?"@,
    }
}

/// The battery part of the status line.
pub open spec fn battery_part(
    is_wireless: bool,
    battery: Option<BatteryInfo>,
    source: Option<BatterySource>,
) -> Seq<char> {
    if !is_wireless {
        ""@
    } else {
        match battery {
            Some(b) => " "@ + battery_sign(b) + dec(b.level as nat) + "%("@ + source_letter(source)
                + ")"@ + (if b.idle {
                " zzz"@
            } else {
                ""@
            }),
            None => " ?%"@,
        }
    }
}

/// The bracketed part of the status line.
pub open spec fn bracket_part(app: App) -> Seq<char> {
    let state = if app.connected {
        "Connected"@ + " Profile "@ + dec((app.info.profile.index() + 1) as nat)
    } else {
        "Disconnected"@
    };
    " ["@ + state + battery_part(app.device.is_wireless, app.battery, app.battery_source) + "] "@
}

/// The status line.
pub open spec fn status(app: App) -> Seq<char> {
    if app.hex.editing {
        bracket_part(app) + "Enter hex color: #"@ + app.hex.input@ + " | Esc:Cancel Enter:Apply"@
    } else {
        bracket_part(app) + app.status_msg@ + " | ?:Help q:Quit"@ + (if app.depth_monitoring {
            " MONITORING"@
        } else {
            ""@
        })
    }
}

/// The title line.
pub fn title_text(connected: bool, device_name: &str) -> (r: String)
    ensures
        r@ == title(connected, device_name@),
{
    if connected && device_name.unicode_len() > 0 {
        two(device_name, " - Configuration Tool")
    } else {
        "MonsGeek/Akko Keyboard - Configuration Tool".to_owned()
    }
}

/// The profile indicator beside the title.
pub fn profile_text(app: &App) -> (r: String)
    ensures
        r@ == (if app.connected {
            " Profile "@ + dec((app.info.profile.index() + 1) as nat) + "/4  ^P "@
        } else {
            ""@
        }),
{
    if app.connected {
        let mut out: String = " Profile ".to_owned();
        push_dec(&mut out, app.info.profile.number() as u64);
        out.append("/4  ^P ");
        out
    } else {
        "".to_owned()
    }
}

/// The hint beside the tabs.
pub fn tab_hint(app: &App) -> (r: String)
    ensures
        r@ == " Alt+1-"@ + dec(app.tabs()) + ": switch tabs "@,
{
    let mut out: String = " Alt+1-".to_owned();
    push_dec(&mut out, app.tab_count() as u64);
    out.append(": switch tabs ");
    out
}

/// The battery part of the status line.
pub fn battery_text(is_wireless: bool, battery: &Option<BatteryInfo>, source: &Option<BatterySource>) -> (r:
    String)
    ensures
        r@ == battery_part(is_wireless, *battery, *source),
{
    if !is_wireless {
        return "".to_owned();
    }
    match battery {
        Some(b) => {
            let sign: &str = if b.charging {
                "⚡"
            } else if b.level > 75 {
                "█"
            } else if b.level > 50 {
                "▆"
            } else if b.level > 25 {
                "▃"
            } else {
                "▁"
            };
            let letter: &str = match source {
                Some(BatterySource::Kernel(_)) => "k",
                Some(BatterySource::Vendor) => "v",
                None => "?",
            };
            let mut out: String = two(" ", sign);
            push_dec(&mut out, b.level as u64);
            out.append("%(");
            out.append(letter);
            out.append(")");
            out.append(
                if b.idle {
                    " zzz"
                } else {
                    ""
                },
            );
            out
        },
        None => " ?%".to_owned(),
    }
}

/// The status line.
pub fn status_text(app: &App) -> (r: String)
    ensures
        r@ == status(*app),
{
    let mut out: String = " [".to_owned();
    if app.connected {
        out.append("Connected");
        out.append(" Profile ");
        push_dec(&mut out, app.info.profile.number() as u64);
    } else {
        out.append("Disconnected");
    }
    let battery: String = battery_text(app.device.is_wireless, &app.battery, &app.battery_source);
    out.append(battery.as_str());
    out.append("] ");
    assert(out@ =~= bracket_part(*app));
    if app.hex.editing {
        out.append("Enter hex color: #");
        out.append(app.hex.input.as_str());
        out.append(" | Esc:Cancel Enter:Apply");
    } else {
        out.append(app.status_msg.as_str());
        out.append(" | ?:Help q:Quit");
        out.append(
            if app.depth_monitoring {
                " MONITORING"
            } else {
                ""
            },
        );
    }
    out
}

/// The smaller of two numbers.
pub open spec fn smaller(a: int, b: int) -> int {
    if a < b {
        a
    } else {
        b
    }
}

/// Where the device picker stands on a screen: in the middle, as high as its list, but
/// with a margin.
pub open spec fn picker_place(items: nat, screen: Area) -> Area {
    let height = if items + 4 < 5 {
        5
    } else {
        smaller((items + 4) as int, screen.height - 4)
    };
    let width = if screen.width < 4 {
        0
    } else {
        smaller(60, screen.width - 4)
    };
    Area {
        x: ((screen.width - width) / 2) as u16,
        y: ((screen.height - height) / 2) as u16,
        width: width as u16,
        height: height as u16,
    }
}

/// Where the device picker stands on a screen, which has at least nine rows.
pub fn picker_area(items: usize, screen: Area) -> (r: Area)
    requires
        items + 4 <= u16::MAX,
        screen.height >= 9,
    ensures
        r == picker_place(items as nat, screen),
{
    let wanted: u16 = items as u16 + 4;
    let room: u16 = screen.height - 4;
    let height: u16 = if wanted < 5 {
        5
    } else if wanted < room {
        wanted
    } else {
        room
    };
    let margin: u16 = if screen.width < 4 {
        0
    } else {
        screen.width - 4
    };
    let width: u16 = if 60 < margin {
        60
    } else {
        margin
    };
    Area {
        x: (screen.width - width) / 2,
        y: (screen.height - height) / 2,
        width,
        height,
    }
}

/// The device picker fits on the screen.
pub proof fn picker_fits(items: nat, screen: Area)
    requires
        screen.height >= 9,
    ensures
        ({
            let p = picker_place(items, screen);
            &&& p.x + p.width <= screen.width
            &&& p.y + p.height <= screen.height
            &&& 5 <= p.height
        }),
{
}

/// The version of a device, as the picker shows it.
pub open spec fn version_part(version: Option<u16>) -> Seq<char> {
    match version {
        Some(v) => " v"@ + dec((v / 100) as nat) + "."@ + dec2((v % 100) as nat),
        None => ""@,
    }
}

/// A line of the device picker.
pub open spec fn picker_text(label: DeviceLabel, responsive: bool) -> Seq<char> {
    "#"@ + padded_right(dec(label.index as nat), 2) + " "@ + padded_right(label.model_name@, 22)
        + " "@ + padded_right(label.transport_name@, 7) + " ["@ + dec(
        match label.device_id {
            Some(id) => id as nat,
            None => 0,
        },
    ) + version_part(label.version) + "]"@ + (if responsive {
        ""@
    } else {
        " (asleep)"@
    })
}

/// A line of the device picker.
pub fn picker_line(item: &PickerItem) -> (r: String)
    ensures
        r@ == picker_text(item.label, item.responsive),
{
    let label: &DeviceLabel = &item.label;
    let mut out: String = "#".to_owned();
    let index: String = dec_string(label.index as u64);
    push_padded_right(&mut out, index.as_str(), 2);
    out.append(" ");
    push_padded_right(&mut out, label.model_name.as_str(), 22);
    out.append(" ");
    push_padded_right(&mut out, label.transport_name.as_str(), 7);
    out.append(" [");
    let id: u32 = match label.device_id {
        Some(id) => id,
        None => 0,
    };
    push_dec(&mut out, id as u64);
    match label.version {
        Some(v) => {
            let ghost before = out@;
            out.append(" v");
            push_dec(&mut out, (v / 100) as u64);
            out.append(".");
            push_dec2(&mut out, (v % 100) as u64);
            assert(out@ =~= before + version_part(label.version));
        },
        None => {
            out.append("");
        },
    }
    out.append("]");
    out.append(
        if item.responsive {
            ""
        } else {
            " (asleep)"
        },
    );
    out
}

} // verus!

//! The tunable shader constants the panel offers, apart from their
//! numeric ranges, and the groups they are shown in.

use vstd::prelude::*;

verus! {

/// How many constants the panel tunes.
pub const PARAMETER_COUNT: usize = 23;

/// How many groups the constants are shown in.
pub const GROUP_COUNT: usize = 5;

/// A tunable constant: its name in the shader, its label and hint in the
/// panel, and the group it is shown in.
#[derive(Debug, Clone, Copy)]
pub struct ParameterInfo {
    pub key: &'static str,
    pub label: &'static str,
    pub hint: &'static str,
    pub group: usize,
}

/// The shader name of the `i`-th tunable constant.
pub open spec fn key_of(i: int) -> Seq<char> {
    if i == 0 {
        "GLITCH_INTERVAL"@
    } else if i == 1 {
        "GLITCH_DURATION"@
    } else if i == 2 {
        "GLITCH_POWER"@
    } else if i == 3 {
        "BASE_GLITCH"@
    } else if i == 4 {
        "SHAKE_BASE_PIXELS"@
    } else if i == 5 {
        "SHAKE_GLITCH_PIXELS"@
    } else if i == 6 {
        "WAVE_BASE_PIXELS"@
    } else if i == 7 {
        "WAVE_GLITCH_PIXELS"@
    } else if i == 8 {
        "ROLLING_TEAR_STRENGTH"@
    } else if i == 9 {
        "ROLLING_TEAR_WIDTH"@
    } else if i == 10 {
        "ROLLING_TEAR_SPEED"@
    } else if i == 11 {
        "ROLLING_TEAR_PIXELS"@
    } else if i == 12 {
        "RGB_SHIFT_BASE_PIXELS"@
    } else if i == 13 {
        "RGB_SHIFT_GLITCH"@
    } else if i == 14 {
        "BLOCK_NOISE_STRENGTH"@
    } else if i == 15 {
        "WHITE_NOISE_STRENGTH"@
    } else if i == 16 {
        "HORIZONTAL_LINE"@
    } else if i == 17 {
        "CURVATURE"@
    } else if i == 18 {
        "SCANLINE_STRENGTH"@
    } else if i == 19 {
        "RGB_MASK_STRENGTH"@
    } else if i == 20 {
        "VIGNETTE_STRENGTH"@
    } else if i == 21 {
        "FLICKER_STRENGTH"@
    } else {
        "OVERSCAN"@
    }
}

/// The panel label of the `i`-th tunable constant.
pub open spec fn label_of(i: int) -> Seq<char> {
    if i == 0 {
        "故障周期"@
    } else if i == 1 {
        "故障持续时间"@
    } else if i == 2 {
        "周期性故障强度"@
    } else if i == 3 {
        "常态信号不稳"@
    } else if i == 4 {
        "常态抖动像素"@
    } else if i == 5 {
        "故障抖动像素"@
    } else if i == 6 {
        "常态水平波纹"@
    } else if i == 7 {
        "故障水平波纹"@
    } else if i == 8 {
        "滚动撕裂强度"@
    } else if i == 9 {
        "撕裂带高度比例"@
    } else if i == 10 {
        "向下滚动速度"@
    } else if i == 11 {
        "撕裂水平错位"@
    } else if i == 12 {
        "常态 RGB 分离"@
    } else if i == 13 {
        "故障 RGB 分离"@
    } else if i == 14 {
        "块状噪声强度"@
    } else if i == 15 {
        "白噪点强度"@
    } else if i == 16 {
        "高频水平暗纹"@
    } else if i == 17 {
        "屏幕曲率"@
    } else if i == 18 {
        "扫描线强度"@
    } else if i == 19 {
        "RGB 荧光粉强度"@
    } else if i == 20 {
        "暗角强度"@
    } else if i == 21 {
        "亮度闪烁"@
    } else {
        "画面裁边/缩小"@
    }
}

/// The English hint of the `i`-th tunable constant.
pub open spec fn hint_of(i: int) -> Seq<char> {
    if i == 0 {
        "Interval"@
    } else if i == 1 {
        "Duration"@
    } else if i == 2 {
        "Power"@
    } else if i == 3 {
        "Base instability"@
    } else if i == 4 {
        "Idle shake"@
    } else if i == 5 {
        "Glitch shake"@
    } else if i == 6 {
        "Idle wave"@
    } else if i == 7 {
        "Glitch wave"@
    } else if i == 8 {
        "Strength"@
    } else if i == 9 {
        "Width"@
    } else if i == 10 {
        "Speed"@
    } else if i == 11 {
        "Displacement"@
    } else if i == 12 {
        "Idle RGB shift"@
    } else if i == 13 {
        "Glitch RGB shift"@
    } else if i == 14 {
        "Block noise"@
    } else if i == 15 {
        "White noise"@
    } else if i == 16 {
        "Horizontal noise"@
    } else if i == 17 {
        "Curvature"@
    } else if i == 18 {
        "Scanlines"@
    } else if i == 19 {
        "Phosphor mask"@
    } else if i == 20 {
        "Vignette"@
    } else if i == 21 {
        "Flicker"@
    } else {
        "Overscan"@
    }
}

/// The group the `i`-th tunable constant is shown in: each group's
/// constants stand together, in the order of the group titles.
pub open spec fn group_of(i: int) -> usize {
    if i < 4 {
        0
    } else if i < 8 {
        1
    } else if i < 12 {
        2
    } else if i < 17 {
        3
    } else {
        4
    }
}

/// The title of the `g`-th group.
pub open spec fn title_of(g: int) -> Seq<char> {
    if g == 0 {
        "信号故障 / Signal glitch"@
    } else if g == 1 {
        "抖动与波浪 / Shake and waves"@
    } else if g == 2 {
        "滚动同步撕裂 / Rolling sync tear"@
    } else if g == 3 {
        "RGB 与噪声 / RGB and noise"@
    } else {
        "CRT 显示 / CRT display"@
    }
}

/// The titles of the groups, in order.
pub fn group_titles() -> (titles: Vec<&'static str>)
    ensures
        titles.len() == GROUP_COUNT,
        forall|g: int| 0 <= g < GROUP_COUNT ==> titles[g]@ == title_of(g),
{
    vec![
        "信号故障 / Signal glitch",
        "抖动与波浪 / Shake and waves",
        "滚动同步撕裂 / Rolling sync tear",
        "RGB 与噪声 / RGB and noise",
        "CRT 显示 / CRT display",
    ]
}

/// The tunable constants, in the order of their declarations in the
/// shader.
pub fn parameters() -> (ps: Vec<ParameterInfo>)
    ensures
        ps.len() == PARAMETER_COUNT,
        forall|i: int|
            0 <= i < PARAMETER_COUNT ==> {
                &&& ps[i].key@ == key_of(i)
                &&& ps[i].label@ == label_of(i)
                &&& ps[i].hint@ == hint_of(i)
                &&& ps[i].group == group_of(i)
            },
{
    vec![
        ParameterInfo { key: "GLITCH_INTERVAL", label: "故障周期", hint: "Interval", group: 0 },
        ParameterInfo {
            key: "GLITCH_DURATION",
            label: "故障持续时间",
            hint: "Duration",
            group: 0,
        },
        ParameterInfo { key: "GLITCH_POWER", label: "周期性故障强度", hint: "Power", group: 0 },
        ParameterInfo {
            key: "BASE_GLITCH",
            label: "常态信号不稳",
            hint: "Base instability",
            group: 0,
        },
        ParameterInfo {
            key: "SHAKE_BASE_PIXELS",
            label: "常态抖动像素",
            hint: "Idle shake",
            group: 1,
        },
        ParameterInfo {
            key: "SHAKE_GLITCH_PIXELS",
            label: "故障抖动像素",
            hint: "Glitch shake",
            group: 1,
        },
        ParameterInfo {
            key: "WAVE_BASE_PIXELS",
            label: "常态水平波纹",
            hint: "Idle wave",
            group: 1,
        },
        ParameterInfo {
            key: "WAVE_GLITCH_PIXELS",
            label: "故障水平波纹",
            hint: "Glitch wave",
            group: 1,
        },
        ParameterInfo {
            key: "ROLLING_TEAR_STRENGTH",
            label: "滚动撕裂强度",
            hint: "Strength",
            group: 2,
        },
        ParameterInfo {
            key: "ROLLING_TEAR_WIDTH",
            label: "撕裂带高度比例",
            hint: "Width",
            group: 2,
        },
        ParameterInfo {
            key: "ROLLING_TEAR_SPEED",
            label: "向下滚动速度",
            hint: "Speed",
            group: 2,
        },
        ParameterInfo {
            key: "ROLLING_TEAR_PIXELS",
            label: "撕裂水平错位",
            hint: "Displacement",
            group: 2,
        },
        ParameterInfo {
            key: "RGB_SHIFT_BASE_PIXELS",
            label: "常态 RGB 分离",
            hint: "Idle RGB shift",
            group: 3,
        },
        ParameterInfo {
            key: "RGB_SHIFT_GLITCH",
            label: "故障 RGB 分离",
            hint: "Glitch RGB shift",
            group: 3,
        },
        ParameterInfo {
            key: "BLOCK_NOISE_STRENGTH",
            label: "块状噪声强度",
            hint: "Block noise",
            group: 3,
        },
        ParameterInfo {
            key: "WHITE_NOISE_STRENGTH",
            label: "白噪点强度",
            hint: "White noise",
            group: 3,
        },
        ParameterInfo {
            key: "HORIZONTAL_LINE",
            label: "高频水平暗纹",
            hint: "Horizontal noise",
            group: 3,
        },
        ParameterInfo { key: "CURVATURE", label: "屏幕曲率", hint: "Curvature", group: 4 },
        ParameterInfo {
            key: "SCANLINE_STRENGTH",
            label: "扫描线强度",
            hint: "Scanlines",
            group: 4,
        },
        ParameterInfo {
            key: "RGB_MASK_STRENGTH",
            label: "RGB 荧光粉强度",
            hint: "Phosphor mask",
            group: 4,
        },
        ParameterInfo {
            key: "VIGNETTE_STRENGTH",
            label: "暗角强度",
            hint: "Vignette",
            group: 4,
        },
        ParameterInfo {
            key: "FLICKER_STRENGTH",
            label: "亮度闪烁",
            hint: "Flicker",
            group: 4,
        },
        ParameterInfo { key: "OVERSCAN", label: "画面裁边/缩小", hint: "Overscan", group: 4 },
    ]
}

/// The table's groups: every constant's group names a group title, each
/// group's constants stand together, and the groups follow one another
/// from the first title to the last without a gap, so none is empty.
pub proof fn law_groups()
    ensures
        forall|i: int| 0 <= i < PARAMETER_COUNT ==> #[trigger] group_of(i) < GROUP_COUNT,
        forall|i: int, j: int|
            0 <= i <= j < PARAMETER_COUNT ==> #[trigger] group_of(i) <= #[trigger] group_of(j),
        group_of(0) == 0,
        group_of(PARAMETER_COUNT - 1) == GROUP_COUNT - 1,
        forall|i: int|
            0 <= i < PARAMETER_COUNT - 1 ==> #[trigger] group_of(i + 1) <= group_of(i) + 1,
{
}

/// The `i`-th slider tunes the shader constant `key`, is labelled
/// `label` with the hint `hint`, and stands in group `group`.
pub open spec fn slider_is(i: int, key: Seq<char>, label: Seq<char>, hint: Seq<char>, group: int) -> bool {
    &&& key_of(i) == key
    &&& label_of(i) == label
    &&& hint_of(i) == hint
    &&& group_of(i) == group
}

/// Which constant each slider tunes, how it is labelled, and where it
/// stands: every slider in the order of the shader's declarations.
pub proof fn law_sliders()
    ensures
        slider_is(0, "GLITCH_INTERVAL"@, "故障周期"@, "Interval"@, 0),
        slider_is(1, "GLITCH_DURATION"@, "故障持续时间"@, "Duration"@, 0),
        slider_is(2, "GLITCH_POWER"@, "周期性故障强度"@, "Power"@, 0),
        slider_is(3, "BASE_GLITCH"@, "常态信号不稳"@, "Base instability"@, 0),
        slider_is(4, "SHAKE_BASE_PIXELS"@, "常态抖动像素"@, "Idle shake"@, 1),
        slider_is(5, "SHAKE_GLITCH_PIXELS"@, "故障抖动像素"@, "Glitch shake"@, 1),
        slider_is(6, "WAVE_BASE_PIXELS"@, "常态水平波纹"@, "Idle wave"@, 1),
        slider_is(7, "WAVE_GLITCH_PIXELS"@, "故障水平波纹"@, "Glitch wave"@, 1),
        slider_is(8, "ROLLING_TEAR_STRENGTH"@, "滚动撕裂强度"@, "Strength"@, 2),
        slider_is(9, "ROLLING_TEAR_WIDTH"@, "撕裂带高度比例"@, "Width"@, 2),
        slider_is(10, "ROLLING_TEAR_SPEED"@, "向下滚动速度"@, "Speed"@, 2),
        slider_is(11, "ROLLING_TEAR_PIXELS"@, "撕裂水平错位"@, "Displacement"@, 2),
        slider_is(12, "RGB_SHIFT_BASE_PIXELS"@, "常态 RGB 分离"@, "Idle RGB shift"@, 3),
        slider_is(13, "RGB_SHIFT_GLITCH"@, "故障 RGB 分离"@, "Glitch RGB shift"@, 3),
        slider_is(14, "BLOCK_NOISE_STRENGTH"@, "块状噪声强度"@, "Block noise"@, 3),
        slider_is(15, "WHITE_NOISE_STRENGTH"@, "白噪点强度"@, "White noise"@, 3),
        slider_is(16, "HORIZONTAL_LINE"@, "高频水平暗纹"@, "Horizontal noise"@, 3),
        slider_is(17, "CURVATURE"@, "屏幕曲率"@, "Curvature"@, 4),
        slider_is(18, "SCANLINE_STRENGTH"@, "扫描线强度"@, "Scanlines"@, 4),
        slider_is(19, "RGB_MASK_STRENGTH"@, "RGB 荧光粉强度"@, "Phosphor mask"@, 4),
        slider_is(20, "VIGNETTE_STRENGTH"@, "暗角强度"@, "Vignette"@, 4),
        slider_is(21, "FLICKER_STRENGTH"@, "亮度闪烁"@, "Flicker"@, 4),
        slider_is(22, "OVERSCAN"@, "画面裁边/缩小"@, "Overscan"@, 4),
{
}

/// Where the groups start and end: the glitch timing constants, the
/// shake and wave constants, the rolling tear constants, the RGB and
/// noise constants, and the CRT display constants, in that order.
pub proof fn law_group_bounds()
    ensures
        forall|i: int| 0 <= i < 4 ==> #[trigger] group_of(i) == 0,
        forall|i: int| 4 <= i < 8 ==> #[trigger] group_of(i) == 1,
        forall|i: int| 8 <= i < 12 ==> #[trigger] group_of(i) == 2,
        forall|i: int| 12 <= i < 17 ==> #[trigger] group_of(i) == 3,
        forall|i: int| 17 <= i < PARAMETER_COUNT ==> #[trigger] group_of(i) == 4,
{
}

/// The title of each group, and that each title heads the constants it
/// names: glitch timing under the signal glitch title, the shake and wave
/// pixels under the shake and waves title, the rolling tear under its
/// title, RGB shift and noise under theirs, and the CRT display last.
pub proof fn law_group_titles()
    ensures
        title_of(0) == "信号故障 / Signal glitch"@,
        title_of(1) == "抖动与波浪 / Shake and waves"@,
        title_of(2) == "滚动同步撕裂 / Rolling sync tear"@,
        title_of(3) == "RGB 与噪声 / RGB and noise"@,
        title_of(4) == "CRT 显示 / CRT display"@,
        title_of(group_of(1) as int) == "信号故障 / Signal glitch"@,
        title_of(group_of(4) as int) == "抖动与波浪 / Shake and waves"@,
        title_of(group_of(8) as int) == "滚动同步撕裂 / Rolling sync tear"@,
        title_of(group_of(12) as int) == "RGB 与噪声 / RGB and noise"@,
        title_of(group_of(17) as int) == "CRT 显示 / CRT display"@,
{
}

/// The length of a constant's name and one character of it, which
/// together tell the table's names apart.
spec fn key_signature(name: Seq<char>) -> (nat, char) {
    let at = if name.len() == 15 {
        7
    } else if name.len() == 17 || name.len() == 21 {
        1
    } else if name.len() == 18 {
        13
    } else {
        0
    };
    (name.len(), name[at])
}

/// Every tunable constant has one entry: no two entries name the same
/// shader constant.
pub proof fn law_keys_distinct()
    ensures
        forall|i: int, j: int|
            0 <= i < j < PARAMETER_COUNT ==> #[trigger] key_of(i) != #[trigger] key_of(j),
{
    reveal_strlit("GLITCH_INTERVAL");
    reveal_strlit("GLITCH_DURATION");
    reveal_strlit("GLITCH_POWER");
    reveal_strlit("BASE_GLITCH");
    reveal_strlit("SHAKE_BASE_PIXELS");
    reveal_strlit("SHAKE_GLITCH_PIXELS");
    reveal_strlit("WAVE_BASE_PIXELS");
    reveal_strlit("WAVE_GLITCH_PIXELS");
    reveal_strlit("ROLLING_TEAR_STRENGTH");
    reveal_strlit("ROLLING_TEAR_WIDTH");
    reveal_strlit("ROLLING_TEAR_SPEED");
    reveal_strlit("ROLLING_TEAR_PIXELS");
    reveal_strlit("RGB_SHIFT_BASE_PIXELS");
    reveal_strlit("RGB_SHIFT_GLITCH");
    reveal_strlit("BLOCK_NOISE_STRENGTH");
    reveal_strlit("WHITE_NOISE_STRENGTH");
    reveal_strlit("HORIZONTAL_LINE");
    reveal_strlit("CURVATURE");
    reveal_strlit("SCANLINE_STRENGTH");
    reveal_strlit("RGB_MASK_STRENGTH");
    reveal_strlit("VIGNETTE_STRENGTH");
    reveal_strlit("FLICKER_STRENGTH");
    reveal_strlit("OVERSCAN");
    assert forall|i: int, j: int|
        0 <= i < j < PARAMETER_COUNT implies #[trigger] key_of(i) != #[trigger] key_of(j) by {
        assert(key_signature(key_of(i)) != key_signature(key_of(j)));
    }
}

/// The text a slider is labelled with: the label, two spaces, the hint.
pub fn parameter_label(p: &ParameterInfo) -> (text: String)
    ensures
        text@ == p.label@ + "  "@ + p.hint@,
{
    String::from_str(p.label).concat("  ").concat(p.hint)
}

/// The table position a slider event's index names, if any: indices
/// outside the table are ignored.
pub fn parameter_slot(index: i32) -> (slot: Option<usize>)
    ensures
        slot == (if 0 <= index < PARAMETER_COUNT {
            Some(index as usize)
        } else {
            None::<usize>
        }),
{
    if 0 <= index && index < 23 {
        Some(index as usize)
    } else {
        None
    }
}

} // verus!

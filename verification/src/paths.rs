//! Where the installed shader and the user's copy are found.

use vstd::prelude::*;

verus! {

/// The directory, below the configuration base, that holds the user's copy.
pub const APP_DIR_NAME: &'static str = "hyprland-crt-shader";

/// The file name of the shader, installed and copied alike.
pub const SHADER_FILE_NAME: &'static str = "crt.frag";

/// Where an installed shader is looked for, in order; the first that
/// exists supplies the defaults and the user's first copy.
pub fn system_shader_paths() -> (paths: Vec<&'static str>)
    ensures
        paths.len() == 2,
        paths[0]@ == "/usr/share/hyprland-crt-shader/crt.frag"@,
        paths[1]@ == "/usr/local/share/hyprland-crt-shader/crt.frag"@,
{
    vec!["/usr/share/hyprland-crt-shader/crt.frag", "/usr/local/share/hyprland-crt-shader/crt.frag"]
}

/// The base directory of the user's configuration, as raw path bytes.
#[derive(Debug, PartialEq, Eq)]
pub enum ConfigRoot {
    /// `$XDG_CONFIG_HOME` itself.
    Xdg(Vec<u8>),
    /// `.config` below `$HOME`.
    Home(Vec<u8>),
    /// `.config` below the working directory.
    WorkingDir,
}

/// `${XDG_CONFIG_HOME:-$HOME/.config}`: the XDG directory when it is set
/// and not empty, else `.config` below the home directory when that is
/// set, else `.config` below the working directory.
pub open spec fn config_root_spec(xdg: Option<Vec<u8>>, home: Option<Vec<u8>>) -> ConfigRoot {
    match xdg {
        Some(x) if x@.len() > 0 => ConfigRoot::Xdg(x),
        _ => match home {
            Some(h) => ConfigRoot::Home(h),
            None => ConfigRoot::WorkingDir,
        },
    }
}

/// Chooses the configuration base from the values of `XDG_CONFIG_HOME`
/// and `HOME` (`None` when unset).
pub fn config_root(xdg: Option<Vec<u8>>, home: Option<Vec<u8>>) -> (root: ConfigRoot)
    ensures
        root == config_root_spec(xdg, home),
{
    if let Some(x) = xdg {
        if x.len() > 0 {
            return ConfigRoot::Xdg(x);
        }
    }
    match home {
        Some(h) => ConfigRoot::Home(h),
        None => ConfigRoot::WorkingDir,
    }
}

} // verus!

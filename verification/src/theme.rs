//! The theme: a fixed set of named colours and glyphs, its built-in values,
//! and the text format that overrides them.

use crate::text::{
    blank, chars_of, find, first_index, is_blank, parse_unsigned, read_unsigned, spells, string_of,
    trim, trim_bounds,
};
use vstd::prelude::*;
use vstd::string::StringExecFns;

verus! {

/// Every colour is an index into the 256-colour palette; every glyph is one
/// character.
#[derive(Clone, Copy, Debug, PartialEq, Eq, Structural)]
pub struct Theme {
    pub separator_fg: u8,
    pub home_bg: u8,
    pub home_fg: u8,
    pub path_bg: u8,
    pub path_fg: u8,
    pub cwd_fg: u8,
    pub username_bg: u8,
    pub username_fg: u8,
    pub username_root_bg: u8,
    pub username_root_fg: u8,
    pub hostname_bg: u8,
    pub hostname_fg: u8,
    pub jobs_bg: u8,
    pub jobs_fg: u8,
    pub time_bg: u8,
    pub time_fg: u8,
    pub ssh_bg: u8,
    pub ssh_fg: u8,
    pub ssh_char: char,
    pub ro_bg: u8,
    pub ro_fg: u8,
    pub ro_char: char,
    pub git_clean_bg: u8,
    pub git_clean_fg: u8,
    pub git_dirty_bg: u8,
    pub git_dirty_fg: u8,
    pub git_detached_bg: u8,
    pub git_detached_fg: u8,
    pub git_ahead_bg: u8,
    pub git_ahead_fg: u8,
    pub git_behind_bg: u8,
    pub git_behind_fg: u8,
    pub git_conflicted_bg: u8,
    pub git_conflicted_fg: u8,
    pub git_changed_bg: u8,
    pub git_changed_fg: u8,
    pub git_staged_bg: u8,
    pub git_staged_fg: u8,
    pub git_untracked_bg: u8,
    pub git_untracked_fg: u8,
    pub git_stashed_bg: u8,
    pub git_stashed_fg: u8,
    pub git_ahead_char: char,
    pub git_behind_char: char,
    pub git_staged_char: char,
    pub git_changed_char: char,
    pub git_untracked_char: char,
    pub git_conflicted_char: char,
    pub git_stashed_char: char,
    pub cmd_passed_bg: u8,
    pub cmd_passed_fg: u8,
    pub cmd_failed_bg: u8,
    pub cmd_failed_fg: u8,
    pub ps_bg: u8,
    pub ps_fg: u8,
    pub virtual_env_bg: u8,
    pub virtual_env_fg: u8,
    pub nixshell_bg: u8,
    pub nixshell_fg: u8,
}

/// The colours that an override can name.
pub enum ColorField {
    SeparatorFg,
    HomeBg,
    HomeFg,
    PathBg,
    PathFg,
    CwdFg,
    UsernameBg,
    UsernameFg,
    UsernameRootBg,
    UsernameRootFg,
    HostnameBg,
    HostnameFg,
    JobsBg,
    JobsFg,
    PsBg,
    PsFg,
    TimeBg,
    TimeFg,
    SshBg,
    SshFg,
    RoBg,
    RoFg,
    GitCleanBg,
    GitCleanFg,
    GitDirtyBg,
    GitDirtyFg,
    GitDetachedBg,
    GitDetachedFg,
    GitAheadBg,
    GitAheadFg,
    GitBehindBg,
    GitBehindFg,
    GitConflictedBg,
    GitConflictedFg,
    GitChangedBg,
    GitChangedFg,
    GitStagedBg,
    GitStagedFg,
    GitUntrackedBg,
    GitUntrackedFg,
    GitStashedBg,
    GitStashedFg,
    CmdPassedBg,
    CmdPassedFg,
    CmdFailedBg,
    CmdFailedFg,
    VirtualEnvBg,
    VirtualEnvFg,
    NixshellBg,
    NixshellFg,
}

/// The glyphs that an override can name.
pub enum GlyphField {
    SshChar,
    RoChar,
    GitAheadChar,
    GitBehindChar,
    GitStagedChar,
    GitChangedChar,
    GitUntrackedChar,
    GitConflictedChar,
    GitStashedChar,
}

/// The colour that an override calls `name`, if it calls one so.
pub open spec fn color_named(name: Seq<char>) -> Option<ColorField> {
    if name == "separator_fg"@ {
        Some(ColorField::SeparatorFg)
    } else if name == "home_bg"@ {
        Some(ColorField::HomeBg)
    } else if name == "home_fg"@ {
        Some(ColorField::HomeFg)
    } else if name == "path_bg"@ {
        Some(ColorField::PathBg)
    } else if name == "path_fg"@ {
        Some(ColorField::PathFg)
    } else if name == "cwd_fg"@ {
        Some(ColorField::CwdFg)
    } else if name == "username_bg"@ {
        Some(ColorField::UsernameBg)
    } else if name == "username_fg"@ {
        Some(ColorField::UsernameFg)
    } else if name == "username_root_bg"@ {
        Some(ColorField::UsernameRootBg)
    } else if name == "username_root_fg"@ {
        Some(ColorField::UsernameRootFg)
    } else if name == "hostname_bg"@ {
        Some(ColorField::HostnameBg)
    } else if name == "hostname_fg"@ {
        Some(ColorField::HostnameFg)
    } else if name == "jobs_bg"@ {
        Some(ColorField::JobsBg)
    } else if name == "jobs_fg"@ {
        Some(ColorField::JobsFg)
    } else if name == "ps_bg"@ {
        Some(ColorField::PsBg)
    } else if name == "ps_fg"@ {
        Some(ColorField::PsFg)
    } else if name == "time_bg"@ {
        Some(ColorField::TimeBg)
    } else if name == "time_fg"@ {
        Some(ColorField::TimeFg)
    } else if name == "ssh_bg"@ {
        Some(ColorField::SshBg)
    } else if name == "ssh_fg"@ {
        Some(ColorField::SshFg)
    } else if name == "ro_bg"@ {
        Some(ColorField::RoBg)
    } else if name == "ro_fg"@ {
        Some(ColorField::RoFg)
    } else if name == "git_clean_bg"@ {
        Some(ColorField::GitCleanBg)
    } else if name == "git_clean_fg"@ {
        Some(ColorField::GitCleanFg)
    } else if name == "git_dirty_bg"@ {
        Some(ColorField::GitDirtyBg)
    } else if name == "git_dirty_fg"@ {
        Some(ColorField::GitDirtyFg)
    } else if name == "git_detached_bg"@ {
        Some(ColorField::GitDetachedBg)
    } else if name == "git_detached_fg"@ {
        Some(ColorField::GitDetachedFg)
    } else if name == "git_ahead_bg"@ {
        Some(ColorField::GitAheadBg)
    } else if name == "git_ahead_fg"@ {
        Some(ColorField::GitAheadFg)
    } else if name == "git_behind_bg"@ {
        Some(ColorField::GitBehindBg)
    } else if name == "git_behind_fg"@ {
        Some(ColorField::GitBehindFg)
    } else if name == "git_conflicted_bg"@ {
        Some(ColorField::GitConflictedBg)
    } else if name == "git_conflicted_fg"@ {
        Some(ColorField::GitConflictedFg)
    } else if name == "git_changed_bg"@ {
        Some(ColorField::GitChangedBg)
    } else if name == "git_changed_fg"@ {
        Some(ColorField::GitChangedFg)
    } else if name == "git_staged_bg"@ {
        Some(ColorField::GitStagedBg)
    } else if name == "git_staged_fg"@ {
        Some(ColorField::GitStagedFg)
    } else if name == "git_untracked_bg"@ {
        Some(ColorField::GitUntrackedBg)
    } else if name == "git_untracked_fg"@ {
        Some(ColorField::GitUntrackedFg)
    } else if name == "git_stashed_bg"@ {
        Some(ColorField::GitStashedBg)
    } else if name == "git_stashed_fg"@ {
        Some(ColorField::GitStashedFg)
    } else if name == "cmd_passed_bg"@ {
        Some(ColorField::CmdPassedBg)
    } else if name == "cmd_passed_fg"@ {
        Some(ColorField::CmdPassedFg)
    } else if name == "cmd_failed_bg"@ {
        Some(ColorField::CmdFailedBg)
    } else if name == "cmd_failed_fg"@ {
        Some(ColorField::CmdFailedFg)
    } else if name == "virtual_env_bg"@ {
        Some(ColorField::VirtualEnvBg)
    } else if name == "virtual_env_fg"@ {
        Some(ColorField::VirtualEnvFg)
    } else if name == "nixshell_bg"@ {
        Some(ColorField::NixshellBg)
    } else if name == "nixshell_fg"@ {
        Some(ColorField::NixshellFg)
    } else {
        None
    }
}

/// The glyph that an override calls `name`, if it calls one so.
pub open spec fn glyph_named(name: Seq<char>) -> Option<GlyphField> {
    if name == "ssh_char"@ {
        Some(GlyphField::SshChar)
    } else if name == "ro_char"@ {
        Some(GlyphField::RoChar)
    } else if name == "git_ahead_char"@ {
        Some(GlyphField::GitAheadChar)
    } else if name == "git_behind_char"@ {
        Some(GlyphField::GitBehindChar)
    } else if name == "git_staged_char"@ {
        Some(GlyphField::GitStagedChar)
    } else if name == "git_changed_char"@ {
        Some(GlyphField::GitChangedChar)
    } else if name == "git_untracked_char"@ {
        Some(GlyphField::GitUntrackedChar)
    } else if name == "git_conflicted_char"@ {
        Some(GlyphField::GitConflictedChar)
    } else if name == "git_stashed_char"@ {
        Some(GlyphField::GitStashedChar)
    } else {
        None
    }
}

/// The built-in theme.
pub open spec fn default_theme() -> Theme {
    Theme {
        separator_fg: 244,
        home_bg: 31,
        home_fg: 15,
        path_bg: 236,
        path_fg: 252,
        cwd_fg: 254,
        username_bg: 32,
        username_fg: 231,
        username_root_bg: 124,
        username_root_fg: 231,
        hostname_bg: 24,
        hostname_fg: 231,
        jobs_bg: 238,
        jobs_fg: 39,
        time_bg: 238,
        time_fg: 250,
        ssh_bg: 166,
        ssh_fg: 254,
        ssh_char: '\u{e0a2}',
        ro_bg: 172,
        ro_fg: 231,
        ro_char: '\u{e0a2}',
        git_clean_bg: 236,
        git_clean_fg: 2,
        git_dirty_bg: 236,
        git_dirty_fg: 98,
        git_detached_bg: 236,
        git_detached_fg: 220,
        git_ahead_bg: 236,
        git_ahead_fg: 248,
        git_behind_bg: 236,
        git_behind_fg: 248,
        git_conflicted_bg: 236,
        git_conflicted_fg: 160,
        git_changed_bg: 236,
        git_changed_fg: 166,
        git_staged_bg: 236,
        git_staged_fg: 2,
        git_untracked_bg: 236,
        git_untracked_fg: 214,
        git_stashed_bg: 236,
        git_stashed_fg: 31,
        git_ahead_char: '\u{2b06}',
        git_behind_char: '\u{2b07}',
        git_staged_char: '\u{25cf}',
        git_changed_char: '\u{271a}',
        git_untracked_char: '\u{2026}',
        git_conflicted_char: '\u{2716}',
        git_stashed_char: '\u{2691}',
        cmd_passed_bg: 162,
        cmd_passed_fg: 231,
        cmd_failed_bg: 124,
        cmd_failed_fg: 231,
        ps_bg: 238,
        ps_fg: 39,
        virtual_env_bg: 233,
        virtual_env_fg: 162,
        nixshell_bg: 237,
        nixshell_fg: 130,
    }
}

/// The built-in theme.
pub fn defaults() -> (theme: Theme)
    ensures
        theme == default_theme(),
{
    Theme {
        separator_fg: 244,
        home_bg: 31,
        home_fg: 15,
        path_bg: 236,
        path_fg: 252,
        cwd_fg: 254,
        username_bg: 32,
        username_fg: 231,
        username_root_bg: 124,
        username_root_fg: 231,
        hostname_bg: 24,
        hostname_fg: 231,
        jobs_bg: 238,
        jobs_fg: 39,
        time_bg: 238,
        time_fg: 250,
        ssh_bg: 166,
        ssh_fg: 254,
        ssh_char: '\u{e0a2}',
        ro_bg: 172,
        ro_fg: 231,
        ro_char: '\u{e0a2}',
        git_clean_bg: 236,
        git_clean_fg: 2,
        git_dirty_bg: 236,
        git_dirty_fg: 98,
        git_detached_bg: 236,
        git_detached_fg: 220,
        git_ahead_bg: 236,
        git_ahead_fg: 248,
        git_behind_bg: 236,
        git_behind_fg: 248,
        git_conflicted_bg: 236,
        git_conflicted_fg: 160,
        git_changed_bg: 236,
        git_changed_fg: 166,
        git_staged_bg: 236,
        git_staged_fg: 2,
        git_untracked_bg: 236,
        git_untracked_fg: 214,
        git_stashed_bg: 236,
        git_stashed_fg: 31,
        git_ahead_char: '\u{2b06}',
        git_behind_char: '\u{2b07}',
        git_staged_char: '\u{25cf}',
        git_changed_char: '\u{271a}',
        git_untracked_char: '\u{2026}',
        git_conflicted_char: '\u{2716}',
        git_stashed_char: '\u{2691}',
        cmd_passed_bg: 162,
        cmd_passed_fg: 231,
        cmd_failed_bg: 124,
        cmd_failed_fg: 231,
        ps_bg: 238,
        ps_fg: 39,
        virtual_env_bg: 233,
        virtual_env_fg: 162,
        nixshell_bg: 237,
        nixshell_fg: 130,
    }
}

impl Theme {
    /// The colour stored under `field`.
    pub open spec fn color(self, field: ColorField) -> u8 {
        match field {
            ColorField::SeparatorFg => self.separator_fg,
            ColorField::HomeBg => self.home_bg,
            ColorField::HomeFg => self.home_fg,
            ColorField::PathBg => self.path_bg,
            ColorField::PathFg => self.path_fg,
            ColorField::CwdFg => self.cwd_fg,
            ColorField::UsernameBg => self.username_bg,
            ColorField::UsernameFg => self.username_fg,
            ColorField::UsernameRootBg => self.username_root_bg,
            ColorField::UsernameRootFg => self.username_root_fg,
            ColorField::HostnameBg => self.hostname_bg,
            ColorField::HostnameFg => self.hostname_fg,
            ColorField::JobsBg => self.jobs_bg,
            ColorField::JobsFg => self.jobs_fg,
            ColorField::PsBg => self.ps_bg,
            ColorField::PsFg => self.ps_fg,
            ColorField::TimeBg => self.time_bg,
            ColorField::TimeFg => self.time_fg,
            ColorField::SshBg => self.ssh_bg,
            ColorField::SshFg => self.ssh_fg,
            ColorField::RoBg => self.ro_bg,
            ColorField::RoFg => self.ro_fg,
            ColorField::GitCleanBg => self.git_clean_bg,
            ColorField::GitCleanFg => self.git_clean_fg,
            ColorField::GitDirtyBg => self.git_dirty_bg,
            ColorField::GitDirtyFg => self.git_dirty_fg,
            ColorField::GitDetachedBg => self.git_detached_bg,
            ColorField::GitDetachedFg => self.git_detached_fg,
            ColorField::GitAheadBg => self.git_ahead_bg,
            ColorField::GitAheadFg => self.git_ahead_fg,
            ColorField::GitBehindBg => self.git_behind_bg,
            ColorField::GitBehindFg => self.git_behind_fg,
            ColorField::GitConflictedBg => self.git_conflicted_bg,
            ColorField::GitConflictedFg => self.git_conflicted_fg,
            ColorField::GitChangedBg => self.git_changed_bg,
            ColorField::GitChangedFg => self.git_changed_fg,
            ColorField::GitStagedBg => self.git_staged_bg,
            ColorField::GitStagedFg => self.git_staged_fg,
            ColorField::GitUntrackedBg => self.git_untracked_bg,
            ColorField::GitUntrackedFg => self.git_untracked_fg,
            ColorField::GitStashedBg => self.git_stashed_bg,
            ColorField::GitStashedFg => self.git_stashed_fg,
            ColorField::CmdPassedBg => self.cmd_passed_bg,
            ColorField::CmdPassedFg => self.cmd_passed_fg,
            ColorField::CmdFailedBg => self.cmd_failed_bg,
            ColorField::CmdFailedFg => self.cmd_failed_fg,
            ColorField::VirtualEnvBg => self.virtual_env_bg,
            ColorField::VirtualEnvFg => self.virtual_env_fg,
            ColorField::NixshellBg => self.nixshell_bg,
            ColorField::NixshellFg => self.nixshell_fg,
        }
    }

    /// The glyph stored under `field`.
    pub open spec fn glyph(self, field: GlyphField) -> char {
        match field {
            GlyphField::SshChar => self.ssh_char,
            GlyphField::RoChar => self.ro_char,
            GlyphField::GitAheadChar => self.git_ahead_char,
            GlyphField::GitBehindChar => self.git_behind_char,
            GlyphField::GitStagedChar => self.git_staged_char,
            GlyphField::GitChangedChar => self.git_changed_char,
            GlyphField::GitUntrackedChar => self.git_untracked_char,
            GlyphField::GitConflictedChar => self.git_conflicted_char,
            GlyphField::GitStashedChar => self.git_stashed_char,
        }
    }

    /// This theme with the colour `field` set to `value` and nothing else changed.
    pub open spec fn with_color(self, field: ColorField, value: u8) -> Theme {
        match field {
            ColorField::SeparatorFg => Theme { separator_fg: value, ..self },
            ColorField::HomeBg => Theme { home_bg: value, ..self },
            ColorField::HomeFg => Theme { home_fg: value, ..self },
            ColorField::PathBg => Theme { path_bg: value, ..self },
            ColorField::PathFg => Theme { path_fg: value, ..self },
            ColorField::CwdFg => Theme { cwd_fg: value, ..self },
            ColorField::UsernameBg => Theme { username_bg: value, ..self },
            ColorField::UsernameFg => Theme { username_fg: value, ..self },
            ColorField::UsernameRootBg => Theme { username_root_bg: value, ..self },
            ColorField::UsernameRootFg => Theme { username_root_fg: value, ..self },
            ColorField::HostnameBg => Theme { hostname_bg: value, ..self },
            ColorField::HostnameFg => Theme { hostname_fg: value, ..self },
            ColorField::JobsBg => Theme { jobs_bg: value, ..self },
            ColorField::JobsFg => Theme { jobs_fg: value, ..self },
            ColorField::PsBg => Theme { ps_bg: value, ..self },
            ColorField::PsFg => Theme { ps_fg: value, ..self },
            ColorField::TimeBg => Theme { time_bg: value, ..self },
            ColorField::TimeFg => Theme { time_fg: value, ..self },
            ColorField::SshBg => Theme { ssh_bg: value, ..self },
            ColorField::SshFg => Theme { ssh_fg: value, ..self },
            ColorField::RoBg => Theme { ro_bg: value, ..self },
            ColorField::RoFg => Theme { ro_fg: value, ..self },
            ColorField::GitCleanBg => Theme { git_clean_bg: value, ..self },
            ColorField::GitCleanFg => Theme { git_clean_fg: value, ..self },
            ColorField::GitDirtyBg => Theme { git_dirty_bg: value, ..self },
            ColorField::GitDirtyFg => Theme { git_dirty_fg: value, ..self },
            ColorField::GitDetachedBg => Theme { git_detached_bg: value, ..self },
            ColorField::GitDetachedFg => Theme { git_detached_fg: value, ..self },
            ColorField::GitAheadBg => Theme { git_ahead_bg: value, ..self },
            ColorField::GitAheadFg => Theme { git_ahead_fg: value, ..self },
            ColorField::GitBehindBg => Theme { git_behind_bg: value, ..self },
            ColorField::GitBehindFg => Theme { git_behind_fg: value, ..self },
            ColorField::GitConflictedBg => Theme { git_conflicted_bg: value, ..self },
            ColorField::GitConflictedFg => Theme { git_conflicted_fg: value, ..self },
            ColorField::GitChangedBg => Theme { git_changed_bg: value, ..self },
            ColorField::GitChangedFg => Theme { git_changed_fg: value, ..self },
            ColorField::GitStagedBg => Theme { git_staged_bg: value, ..self },
            ColorField::GitStagedFg => Theme { git_staged_fg: value, ..self },
            ColorField::GitUntrackedBg => Theme { git_untracked_bg: value, ..self },
            ColorField::GitUntrackedFg => Theme { git_untracked_fg: value, ..self },
            ColorField::GitStashedBg => Theme { git_stashed_bg: value, ..self },
            ColorField::GitStashedFg => Theme { git_stashed_fg: value, ..self },
            ColorField::CmdPassedBg => Theme { cmd_passed_bg: value, ..self },
            ColorField::CmdPassedFg => Theme { cmd_passed_fg: value, ..self },
            ColorField::CmdFailedBg => Theme { cmd_failed_bg: value, ..self },
            ColorField::CmdFailedFg => Theme { cmd_failed_fg: value, ..self },
            ColorField::VirtualEnvBg => Theme { virtual_env_bg: value, ..self },
            ColorField::VirtualEnvFg => Theme { virtual_env_fg: value, ..self },
            ColorField::NixshellBg => Theme { nixshell_bg: value, ..self },
            ColorField::NixshellFg => Theme { nixshell_fg: value, ..self },
        }
    }

    /// This theme with the glyph `field` set to `value` and nothing else changed.
    pub open spec fn with_glyph(self, field: GlyphField, value: char) -> Theme {
        match field {
            GlyphField::SshChar => Theme { ssh_char: value, ..self },
            GlyphField::RoChar => Theme { ro_char: value, ..self },
            GlyphField::GitAheadChar => Theme { git_ahead_char: value, ..self },
            GlyphField::GitBehindChar => Theme { git_behind_char: value, ..self },
            GlyphField::GitStagedChar => Theme { git_staged_char: value, ..self },
            GlyphField::GitChangedChar => Theme { git_changed_char: value, ..self },
            GlyphField::GitUntrackedChar => Theme { git_untracked_char: value, ..self },
            GlyphField::GitConflictedChar => Theme { git_conflicted_char: value, ..self },
            GlyphField::GitStashedChar => Theme { git_stashed_char: value, ..self },
        }
    }
}

/// The colour of `theme` that `name` stands for, to read or to set, if
/// `name` names a colour. Whatever is written there is the only change to
/// the theme.
pub fn theme_index_u8<'a>(theme: &'a mut Theme, name: &str) -> (slot: Option<&'a mut u8>)
    ensures
        match (color_named(name@), slot) {
            (Some(field), Some(slot)) => *slot == old(theme).color(field) && *final(theme)
                == old(theme).with_color(field, *final(slot)),
            (None, None) => *final(theme) == *old(theme),
            _ => false,
        },
{
    let name = chars_of(name);
    if spells(&name, "separator_fg") {
        return Some(&mut theme.separator_fg);
    }
    if spells(&name, "home_bg") {
        return Some(&mut theme.home_bg);
    }
    if spells(&name, "home_fg") {
        return Some(&mut theme.home_fg);
    }
    if spells(&name, "path_bg") {
        return Some(&mut theme.path_bg);
    }
    if spells(&name, "path_fg") {
        return Some(&mut theme.path_fg);
    }
    if spells(&name, "cwd_fg") {
        return Some(&mut theme.cwd_fg);
    }
    if spells(&name, "username_bg") {
        return Some(&mut theme.username_bg);
    }
    if spells(&name, "username_fg") {
        return Some(&mut theme.username_fg);
    }
    if spells(&name, "username_root_bg") {
        return Some(&mut theme.username_root_bg);
    }
    if spells(&name, "username_root_fg") {
        return Some(&mut theme.username_root_fg);
    }
    if spells(&name, "hostname_bg") {
        return Some(&mut theme.hostname_bg);
    }
    if spells(&name, "hostname_fg") {
        return Some(&mut theme.hostname_fg);
    }
    if spells(&name, "jobs_bg") {
        return Some(&mut theme.jobs_bg);
    }
    if spells(&name, "jobs_fg") {
        return Some(&mut theme.jobs_fg);
    }
    if spells(&name, "ps_bg") {
        return Some(&mut theme.ps_bg);
    }
    if spells(&name, "ps_fg") {
        return Some(&mut theme.ps_fg);
    }
    if spells(&name, "time_bg") {
        return Some(&mut theme.time_bg);
    }
    if spells(&name, "time_fg") {
        return Some(&mut theme.time_fg);
    }
    if spells(&name, "ssh_bg") {
        return Some(&mut theme.ssh_bg);
    }
    if spells(&name, "ssh_fg") {
        return Some(&mut theme.ssh_fg);
    }
    if spells(&name, "ro_bg") {
        return Some(&mut theme.ro_bg);
    }
    if spells(&name, "ro_fg") {
        return Some(&mut theme.ro_fg);
    }
    if spells(&name, "git_clean_bg") {
        return Some(&mut theme.git_clean_bg);
    }
    if spells(&name, "git_clean_fg") {
        return Some(&mut theme.git_clean_fg);
    }
    if spells(&name, "git_dirty_bg") {
        return Some(&mut theme.git_dirty_bg);
    }
    if spells(&name, "git_dirty_fg") {
        return Some(&mut theme.git_dirty_fg);
    }
    if spells(&name, "git_detached_bg") {
        return Some(&mut theme.git_detached_bg);
    }
    if spells(&name, "git_detached_fg") {
        return Some(&mut theme.git_detached_fg);
    }
    if spells(&name, "git_ahead_bg") {
        return Some(&mut theme.git_ahead_bg);
    }
    if spells(&name, "git_ahead_fg") {
        return Some(&mut theme.git_ahead_fg);
    }
    if spells(&name, "git_behind_bg") {
        return Some(&mut theme.git_behind_bg);
    }
    if spells(&name, "git_behind_fg") {
        return Some(&mut theme.git_behind_fg);
    }
    if spells(&name, "git_conflicted_bg") {
        return Some(&mut theme.git_conflicted_bg);
    }
    if spells(&name, "git_conflicted_fg") {
        return Some(&mut theme.git_conflicted_fg);
    }
    if spells(&name, "git_changed_bg") {
        return Some(&mut theme.git_changed_bg);
    }
    if spells(&name, "git_changed_fg") {
        return Some(&mut theme.git_changed_fg);
    }
    if spells(&name, "git_staged_bg") {
        return Some(&mut theme.git_staged_bg);
    }
    if spells(&name, "git_staged_fg") {
        return Some(&mut theme.git_staged_fg);
    }
    if spells(&name, "git_untracked_bg") {
        return Some(&mut theme.git_untracked_bg);
    }
    if spells(&name, "git_untracked_fg") {
        return Some(&mut theme.git_untracked_fg);
    }
    if spells(&name, "git_stashed_bg") {
        return Some(&mut theme.git_stashed_bg);
    }
    if spells(&name, "git_stashed_fg") {
        return Some(&mut theme.git_stashed_fg);
    }
    if spells(&name, "cmd_passed_bg") {
        return Some(&mut theme.cmd_passed_bg);
    }
    if spells(&name, "cmd_passed_fg") {
        return Some(&mut theme.cmd_passed_fg);
    }
    if spells(&name, "cmd_failed_bg") {
        return Some(&mut theme.cmd_failed_bg);
    }
    if spells(&name, "cmd_failed_fg") {
        return Some(&mut theme.cmd_failed_fg);
    }
    if spells(&name, "virtual_env_bg") {
        return Some(&mut theme.virtual_env_bg);
    }
    if spells(&name, "virtual_env_fg") {
        return Some(&mut theme.virtual_env_fg);
    }
    if spells(&name, "nixshell_bg") {
        return Some(&mut theme.nixshell_bg);
    }
    if spells(&name, "nixshell_fg") {
        return Some(&mut theme.nixshell_fg);
    }
    None
}

/// The glyph of `theme` that `name` stands for, to read or to set, if
/// `name` names a glyph. Whatever is written there is the only change to
/// the theme.
pub fn theme_index_char<'a>(theme: &'a mut Theme, name: &str) -> (slot: Option<&'a mut char>)
    ensures
        match (glyph_named(name@), slot) {
            (Some(field), Some(slot)) => *slot == old(theme).glyph(field) && *final(theme)
                == old(theme).with_glyph(field, *final(slot)),
            (None, None) => *final(theme) == *old(theme),
            _ => false,
        },
{
    let name = chars_of(name);
    if spells(&name, "ssh_char") {
        return Some(&mut theme.ssh_char);
    }
    if spells(&name, "ro_char") {
        return Some(&mut theme.ro_char);
    }
    if spells(&name, "git_ahead_char") {
        return Some(&mut theme.git_ahead_char);
    }
    if spells(&name, "git_behind_char") {
        return Some(&mut theme.git_behind_char);
    }
    if spells(&name, "git_staged_char") {
        return Some(&mut theme.git_staged_char);
    }
    if spells(&name, "git_changed_char") {
        return Some(&mut theme.git_changed_char);
    }
    if spells(&name, "git_untracked_char") {
        return Some(&mut theme.git_untracked_char);
    }
    if spells(&name, "git_conflicted_char") {
        return Some(&mut theme.git_conflicted_char);
    }
    if spells(&name, "git_stashed_char") {
        return Some(&mut theme.git_stashed_char);
    }
    None
}

/// The error for an override that does not follow the format.
#[derive(Clone, Copy, Debug, PartialEq, Eq, Structural)]
pub struct ErrCorrupt;

impl ErrCorrupt {
    /// The message to show for this error.
    pub fn message(&self) -> (text: String)
        ensures
            text@ == "Corrupt theme file"@,
    {
        let mut text = String::new();
        text.append("Corrupt theme file");
        assert(text@ =~= "Corrupt theme file"@);
        text
    }
}

/// What one line of an override asks for.
pub enum Assignment {
    Color(ColorField, u8),
    Glyph(GlyphField, char),
}

impl Theme {
    /// This theme after the assignment `a`.
    pub open spec fn assigned(self, a: Assignment) -> Theme {
        match a {
            Assignment::Color(field, value) => self.with_color(field, value),
            Assignment::Glyph(field, value) => self.with_glyph(field, value),
        }
    }
}

/// Setting a colour changes that colour and nothing else.
pub proof fn lemma_with_color(theme: Theme, field: ColorField, value: u8)
    ensures
        theme.with_color(field, value).color(field) == value,
        forall|other: ColorField|
            other != field ==> #[trigger] theme.with_color(field, value).color(other)
                == theme.color(other),
        forall|glyph: GlyphField| #[trigger]
            theme.with_color(field, value).glyph(glyph) == theme.glyph(glyph),
{
}

/// Setting a glyph changes that glyph and nothing else.
pub proof fn lemma_with_glyph(theme: Theme, field: GlyphField, value: char)
    ensures
        theme.with_glyph(field, value).glyph(field) == value,
        forall|other: GlyphField|
            other != field ==> #[trigger] theme.with_glyph(field, value).glyph(other)
                == theme.glyph(other),
        forall|color: ColorField| #[trigger]
            theme.with_glyph(field, value).color(color) == theme.color(color),
{
}

/// A line that an override may hold without meaning anything: a comment,
/// which starts with `#`, or a line of white space only.
pub open spec fn is_skipped(line: Seq<char>) -> bool {
    (line.len() > 0 && line[0] == '#') || is_blank(line)
}

/// Names that end in `char` are names of glyphs; all others are names of
/// colours.
pub open spec fn names_glyph(name: Seq<char>) -> bool {
    name.len() >= 4 && name.subrange(name.len() - 4, name.len() as int) == seq!['c', 'h', 'a', 'r']
}

/// Whether `code` is a Unicode scalar value: a code point that is no
/// surrogate.
pub open spec fn is_scalar(code: nat) -> bool {
    code <= 0xD7FF || 0xE000 <= code <= 0x10FFFF
}

/// The glyph that `value` gives: a single character stands for itself;
/// anything else is the hexadecimal number of a code point.
pub open spec fn glyph_value(value: Seq<char>) -> Option<char> {
    if value.len() == 1 {
        Some(value[0])
    } else {
        match parse_unsigned(value, 16, 0xFFFF_FFFF) {
            Some(code) => if is_scalar(code) {
                Some(code as char)
            } else {
                None
            },
            None => None,
        }
    }
}

/// The colour that `value` gives: a decimal number from 0 to 255.
pub open spec fn color_value(value: Seq<char>) -> Option<u8> {
    match parse_unsigned(value, 10, 255) {
        Some(v) => Some(v as u8),
        None => None,
    }
}

/// The assignment that `line` spells, if it spells one: a name and a value
/// on either side of the first `=`, each with the white space around it
/// taken off.
pub open spec fn parse_assignment(line: Seq<char>) -> Option<Assignment> {
    let at = first_index(line, '=') as int;
    if at >= line.len() {
        None
    } else {
        let name = trim(line.take(at));
        let value = trim(line.skip(at + 1));
        if names_glyph(name) {
            match (glyph_named(name), glyph_value(value)) {
                (Some(field), Some(glyph)) => Some(Assignment::Glyph(field, glyph)),
                _ => None,
            }
        } else {
            match (color_named(name), color_value(value)) {
                (Some(field), Some(color)) => Some(Assignment::Color(field, color)),
                _ => None,
            }
        }
    }
}

/// `theme` after one line of an override; `None` where the line is corrupt.
pub open spec fn line_applied(theme: Theme, line: Seq<char>) -> Option<Theme> {
    if is_skipped(line) {
        Some(theme)
    } else {
        match parse_assignment(line) {
            Some(a) => Some(theme.assigned(a)),
            None => None,
        }
    }
}

/// `theme` after all of `lines`, in order; `None` where any of them is
/// corrupt.
pub open spec fn lines_applied(theme: Theme, lines: Seq<Seq<char>>) -> Option<Theme>
    decreases lines.len(),
{
    if lines.len() == 0 {
        Some(theme)
    } else {
        match lines_applied(theme, lines.drop_last()) {
            Some(t) => line_applied(t, lines.last()),
            None => None,
        }
    }
}

/// The theme that an override made of `lines` gives.
pub open spec fn load_spec(lines: Seq<Seq<char>>) -> Option<Theme> {
    lines_applied(default_theme(), lines)
}

/// One corrupt line makes the whole override corrupt, whatever follows it.
pub proof fn lemma_corrupt_prefix(theme: Theme, lines: Seq<Seq<char>>, k: int)
    requires
        0 <= k <= lines.len(),
        lines_applied(theme, lines.take(k)) is None,
    ensures
        lines_applied(theme, lines) is None,
    decreases lines.len() - k,
{
    if k < lines.len() {
        assert(lines.drop_last().take(k) =~= lines.take(k));
        lemma_corrupt_prefix(theme, lines.drop_last(), k);
    } else {
        assert(lines.take(k) =~= lines);
    }
}

/// The glyph that `chars[from..to]` gives.
fn read_glyph(chars: &Vec<char>, from: usize, to: usize) -> (glyph: Option<char>)
    requires
        from <= to <= chars.len(),
    ensures
        glyph == glyph_value(chars@.subrange(from as int, to as int)),
{
    if to - from == 1 {
        assert(chars@.subrange(from as int, to as int)[0] == chars@[from as int]);
        return Some(chars[from]);
    }
    match read_unsigned(chars, from, to, 16, 0xFFFF_FFFF) {
        Some(code) => char::from_u32(code),
        None => None,
    }
}

/// The colour that `chars[from..to]` gives.
fn read_color(chars: &Vec<char>, from: usize, to: usize) -> (color: Option<u8>)
    requires
        from <= to <= chars.len(),
    ensures
        color == color_value(chars@.subrange(from as int, to as int)),
{
    match read_unsigned(chars, from, to, 10, 255) {
        Some(color) => Some(color as u8),
        None => None,
    }
}

/// Carries out one line of an override. A line that is skipped changes
/// nothing, and neither does a corrupt line, which gives the error.
pub fn apply_line(theme: &mut Theme, line: &str) -> (r: Result<(), ErrCorrupt>)
    ensures
        match line_applied(*old(theme), line@) {
            Some(applied) => r is Ok && *final(theme) == applied,
            None => r is Err && *final(theme) == *old(theme),
        },
{
    let chars = chars_of(line);
    let n = chars.len();
    assert(chars@.subrange(0, n as int) =~= chars@);
    if (n > 0 && chars[0] == '#') || blank(&chars, 0, n) {
        return Ok(());
    }
    let at = find(&chars, '=');
    if at >= n {
        return Err(ErrCorrupt);
    }
    assert(chars@.take(at as int) =~= chars@.subrange(0, at as int));
    assert(chars@.skip(at + 1) =~= chars@.subrange(at + 1, n as int));
    let (name_from, name_to) = trim_bounds(&chars, 0, at);
    let (value_from, value_to) = trim_bounds(&chars, at + 1, n);
    let ghost name = chars@.subrange(name_from as int, name_to as int);
    let variable = string_of(&chars, name_from, name_to);
    let glyph = name_to - name_from >= 4 && chars[name_to - 4] == 'c' && chars[name_to - 3] == 'h'
        && chars[name_to - 2] == 'a' && chars[name_to - 1] == 'r';
    proof {
        let tail = name.subrange(name.len() - 4, name.len() as int);
        if name.len() >= 4 {
            assert(tail.len() == 4);
            assert(tail[0] == chars@[name_to - 4]);
            assert(tail[1] == chars@[name_to - 3]);
            assert(tail[2] == chars@[name_to - 2]);
            assert(tail[3] == chars@[name_to - 1]);
            if glyph {
                assert(tail =~= seq!['c', 'h', 'a', 'r']);
            }
        }
        assert(glyph == names_glyph(name));
    }
    if glyph {
        let value = match read_glyph(&chars, value_from, value_to) {
            Some(value) => value,
            None => {
                return Err(ErrCorrupt);
            },
        };
        match theme_index_char(theme, variable.as_str()) {
            Some(index) => {
                *index = value;
                Ok(())
            },
            None => Err(ErrCorrupt),
        }
    } else {
        let value = match read_color(&chars, value_from, value_to) {
            Some(value) => value,
            None => {
                return Err(ErrCorrupt);
            },
        };
        match theme_index_u8(theme, variable.as_str()) {
            Some(index) => {
                *index = value;
                Ok(())
            },
            None => Err(ErrCorrupt),
        }
    }
}

/// Builds the theme that the lines of an override give, starting from the
/// built-in theme. A corrupt line fails the whole load.
pub fn load(lines: &Vec<String>) -> (r: Result<Theme, ErrCorrupt>)
    ensures
        r == match load_spec(lines.deep_view()) {
            Some(theme) => Ok::<Theme, ErrCorrupt>(theme),
            None => Err::<Theme, ErrCorrupt>(ErrCorrupt),
        },
{
    let ghost all = lines.deep_view();
    let mut theme = defaults();
    let mut i: usize = 0;
    assert(all.take(0) =~= Seq::<Seq<char>>::empty());
    while i < lines.len()
        invariant
            i <= lines.len(),
            all == lines.deep_view(),
            lines_applied(default_theme(), all.take(i as int)) == Some(theme),
        decreases lines.len() - i,
    {
        proof {
            assert(all.len() == lines.len());
            assert(all[i as int] == lines@[i as int]@);
            assert(all.take(i + 1).drop_last() =~= all.take(i as int));
            assert(all.take(i + 1).last() == all[i as int]);
        }
        match apply_line(&mut theme, lines[i].as_str()) {
            Err(e) => {
                proof {
                    lemma_corrupt_prefix(default_theme(), all, i + 1);
                }
                return Err(e);
            },
            Ok(()) => {},
        }
        i += 1;
    }
    assert(all.take(lines.len() as int) =~= all);
    Ok(theme)
}

} // verus!

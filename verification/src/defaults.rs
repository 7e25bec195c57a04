//! The built-in seed values: the default black list covering dynamic-linker
//! and loader-influencing names plus identity-related names, the minimal
//! default white list, and the computed per-program default settings.

use vstd::prelude::*;
use vstd::slice::slice_to_vec;
use vstd::string::StrSliceExecFns;
use vstd::string::StringSliceAdditionalSpecFns;
use crate::environment_map::EnvironmentMap;
use crate::variable::EnvironmentVariable;

verus! {

/// The default black-list names, in seeding order.
pub open spec fn default_black_list_names() -> Seq<Seq<u8>> {
    seq![
        "CDPATH".spec_bytes(),
        "LD_LIBRARY_PATH".spec_bytes(),
        "LD_PRELOAD".spec_bytes(),
        "DYLD_LIBRARY_PATH".spec_bytes(),
        "DYLD_FALLBACK_LIBRARY_PATH".spec_bytes(),
        "DYLD_FRAMEWORK_PATH".spec_bytes(),
        "DYLD_FALLBACK_FRAMEWORK_PATH".spec_bytes(),
        "LD_BIND_NOW ".spec_bytes(),
        "LD_TRACE_LOADED_OBJECTS".spec_bytes(),
        "LD_AOUT_LIBRARY_PATH".spec_bytes(),
        "LD_AOUT_PRELOAD".spec_bytes(),
        "LD_AUDIT".spec_bytes(),
        "LD_BIND_NOT".spec_bytes(),
        "LD_DEBUG".spec_bytes(),
        "LD_DEBUG_OUTPUT".spec_bytes(),
        "LD_DYNAMIC_WEAK".spec_bytes(),
        "LD_HWCAP_MASK".spec_bytes(),
        "LD_KEEPDIR".spec_bytes(),
        "LD_NOWARN".spec_bytes(),
        "LD_ORIGIN_PATH".spec_bytes(),
        "LD_POINTER_GUARD".spec_bytes(),
        "LD_PROFILE".spec_bytes(),
        "LD_PROFILE_OUTPUT".spec_bytes(),
        "LD_SHOW_AUXV".spec_bytes(),
        "LD_USE_LOAD_BIAS".spec_bytes(),
        "LD_VERBOSE".spec_bytes(),
        "LD_WARN".spec_bytes(),
        "LDD_ARGV0 ".spec_bytes(),
        "LOGNAME".spec_bytes(),
        "USER".spec_bytes(),
        "SUDO_USER".spec_bytes(),
        "SUDO_UID".spec_bytes(),
        "SUDO_COMMAND".spec_bytes(),
        "SUDO_GID".spec_bytes(),
        "HOME".spec_bytes(),
    ]
}

/// The default black list: dynamic-linker and loader-influencing names, the
/// identity names that a syscall answers more reliably, sudo residue, and
/// HOME, which the settings list forces back to its canonical value.
pub fn defaultBlackList() -> (r: Vec<EnvironmentVariable>)
    ensures
        r.deep_view() == default_black_list_names(),
{
    let mut names: Vec<EnvironmentVariable> = Vec::new();
    names.push(EnvironmentVariable::fromText("CDPATH"));
    names.push(EnvironmentVariable::fromText("LD_LIBRARY_PATH"));
    names.push(EnvironmentVariable::fromText("LD_PRELOAD"));
    names.push(EnvironmentVariable::fromText("DYLD_LIBRARY_PATH"));
    names.push(EnvironmentVariable::fromText("DYLD_FALLBACK_LIBRARY_PATH"));
    names.push(EnvironmentVariable::fromText("DYLD_FRAMEWORK_PATH"));
    names.push(EnvironmentVariable::fromText("DYLD_FALLBACK_FRAMEWORK_PATH"));
    names.push(EnvironmentVariable::fromText("LD_BIND_NOW "));
    names.push(EnvironmentVariable::fromText("LD_TRACE_LOADED_OBJECTS"));
    names.push(EnvironmentVariable::fromText("LD_AOUT_LIBRARY_PATH"));
    names.push(EnvironmentVariable::fromText("LD_AOUT_PRELOAD"));
    names.push(EnvironmentVariable::fromText("LD_AUDIT"));
    names.push(EnvironmentVariable::fromText("LD_BIND_NOT"));
    names.push(EnvironmentVariable::fromText("LD_DEBUG"));
    names.push(EnvironmentVariable::fromText("LD_DEBUG_OUTPUT"));
    names.push(EnvironmentVariable::fromText("LD_DYNAMIC_WEAK"));
    names.push(EnvironmentVariable::fromText("LD_HWCAP_MASK"));
    names.push(EnvironmentVariable::fromText("LD_KEEPDIR"));
    names.push(EnvironmentVariable::fromText("LD_NOWARN"));
    names.push(EnvironmentVariable::fromText("LD_ORIGIN_PATH"));
    names.push(EnvironmentVariable::fromText("LD_POINTER_GUARD"));
    names.push(EnvironmentVariable::fromText("LD_PROFILE"));
    names.push(EnvironmentVariable::fromText("LD_PROFILE_OUTPUT"));
    names.push(EnvironmentVariable::fromText("LD_SHOW_AUXV"));
    names.push(EnvironmentVariable::fromText("LD_USE_LOAD_BIAS"));
    names.push(EnvironmentVariable::fromText("LD_VERBOSE"));
    names.push(EnvironmentVariable::fromText("LD_WARN"));
    names.push(EnvironmentVariable::fromText("LDD_ARGV0 "));
    names.push(EnvironmentVariable::fromText("LOGNAME"));
    names.push(EnvironmentVariable::fromText("USER"));
    names.push(EnvironmentVariable::fromText("SUDO_USER"));
    names.push(EnvironmentVariable::fromText("SUDO_UID"));
    names.push(EnvironmentVariable::fromText("SUDO_COMMAND"));
    names.push(EnvironmentVariable::fromText("SUDO_GID"));
    names.push(EnvironmentVariable::fromText("HOME"));
    proof {
        assert(names.deep_view() =~~= default_black_list_names());
    }
    names
}

/// The default white-list names, in seeding order.
pub open spec fn default_white_list_names() -> Seq<Seq<u8>> {
    seq!["PATH".spec_bytes(), "TMPDIR".spec_bytes()]
}

/// The default white list: the minimal safe set, the search path and the
/// temp-directory name.
pub fn defaultWhiteList() -> (r: Vec<EnvironmentVariable>)
    ensures
        r.deep_view() == default_white_list_names(),
{
    let mut names: Vec<EnvironmentVariable> = Vec::new();
    names.push(EnvironmentVariable::fromText("PATH"));
    names.push(EnvironmentVariable::fromText("TMPDIR"));
    proof {
        assert(names.deep_view() =~~= default_white_list_names());
    }
    names
}

/// The per-program private temp-directory path: the home directory, the
/// tool's own subdirectory, then the program name.
pub open spec fn default_tmp_dir(home: Seq<u8>, program: Seq<u8>) -> Seq<u8> {
    home + "/.environment-sanity/tmp/".spec_bytes() + program
}

/// The computed default settings for one program: a canonical timezone, the
/// canonical home directory, a per-program private temp directory, the
/// Homebrew analytics opt-out, the locale names appropriate to the operating
/// system family, and the inherited login name forced onto the name the
/// other family spells it with.
pub open spec fn default_settings_map(
    program: Seq<u8>,
    home: Seq<u8>,
    linux: bool,
    login: Option<Seq<u8>>,
) -> Map<Seq<u8>, Seq<u8>> {
    let locale = if linux {
        "C.UTF-8".spec_bytes()
    } else {
        "UTF-8".spec_bytes()
    };
    let base = Map::<Seq<u8>, Seq<u8>>::empty().insert(
        "TZ".spec_bytes(),
        "Etc/UTC".spec_bytes(),
    ).insert("HOME".spec_bytes(), home).insert(
        "TMPDIR".spec_bytes(),
        default_tmp_dir(home, program),
    ).insert("HOMEBREW_NO_ANALYTICS".spec_bytes(), "1".spec_bytes()).insert(
        "LC_ALL".spec_bytes(),
        locale,
    ).insert("LC_COLLATE".spec_bytes(), locale).insert("LC_CTYPE".spec_bytes(), locale).insert(
        "LC_MESSAGES".spec_bytes(),
        locale,
    ).insert("LC_MONETARY".spec_bytes(), locale).insert("LC_NUMERIC".spec_bytes(), locale).insert(
        "LC_TIME".spec_bytes(),
        locale,
    ).insert("LANG".spec_bytes(), locale);
    match login {
        None => base,
        Some(l) => base.insert(
            if linux {
                "USER".spec_bytes()
            } else {
                "LOGNAME".spec_bytes()
            },
            l,
        ),
    }
}

/// The computed default settings for one program. `homeFolder` is the home
/// directory that ignores any inherited HOME value; `loginName` is the
/// inherited LOGNAME value on the Linux family, the inherited USER value
/// elsewhere, if either is set.
pub fn defaultSettings(
    programName: &Vec<u8>,
    homeFolder: &Vec<u8>,
    linux: bool,
    loginName: Option<&Vec<u8>>,
) -> (r: EnvironmentMap)
    ensures
        r@ == default_settings_map(programName@, homeFolder@, linux, loginName.deep_view()),
{
    let mut settings = EnvironmentMap::new();
    settings.insert(EnvironmentVariable::fromText("TZ"), "Etc/UTC".as_bytes_vec());
    settings.insert(
        EnvironmentVariable::fromText("HOME"),
        slice_to_vec(homeFolder.as_slice()),
    );
    let mut tmpDir = slice_to_vec(homeFolder.as_slice());
    let mut toolSubdirectory = "/.environment-sanity/tmp/".as_bytes_vec();
    tmpDir.append(&mut toolSubdirectory);
    let mut programPart = slice_to_vec(programName.as_slice());
    tmpDir.append(&mut programPart);
    settings.insert(EnvironmentVariable::fromText("TMPDIR"), tmpDir);
    settings.insert(
        EnvironmentVariable::fromText("HOMEBREW_NO_ANALYTICS"),
        "1".as_bytes_vec(),
    );
    let localeName: &str = if linux {
        "C.UTF-8"
    } else {
        "UTF-8"
    };
    settings.insert(EnvironmentVariable::fromText("LC_ALL"), localeName.as_bytes_vec());
    settings.insert(EnvironmentVariable::fromText("LC_COLLATE"), localeName.as_bytes_vec());
    settings.insert(EnvironmentVariable::fromText("LC_CTYPE"), localeName.as_bytes_vec());
    settings.insert(EnvironmentVariable::fromText("LC_MESSAGES"), localeName.as_bytes_vec());
    settings.insert(EnvironmentVariable::fromText("LC_MONETARY"), localeName.as_bytes_vec());
    settings.insert(EnvironmentVariable::fromText("LC_NUMERIC"), localeName.as_bytes_vec());
    settings.insert(EnvironmentVariable::fromText("LC_TIME"), localeName.as_bytes_vec());
    settings.insert(EnvironmentVariable::fromText("LANG"), localeName.as_bytes_vec());
    match loginName {
        None => {},
        Some(login) => {
            let targetName = if linux {
                EnvironmentVariable::fromText("USER")
            } else {
                EnvironmentVariable::fromText("LOGNAME")
            };
            settings.insert(targetName, slice_to_vec(login.as_slice()));
        },
    }
    proof {
        assert(settings@ =~~= default_settings_map(
            programName@,
            homeFolder@,
            linux,
            loginName.deep_view(),
        ));
    }
    settings
}

} // verus!

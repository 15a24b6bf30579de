//! What an authentication audit of a root filesystem checks: the binaries,
//! PAM modules and configuration files that logins depend on, each with the
//! reason it matters.

use vstd::prelude::*;

verus! {

/// Authentication binaries that must exist: without them logins fail silently or security breaks.
pub fn critical_auth_binaries() -> (r: Vec<(&'static str, &'static str)>)
    ensures
        r@.map_values(|p: (&str, &str)| p.0@) == seq![
            "usr/sbin/unix_chkpwd"@,
            "usr/sbin/passwd"@,
            "usr/sbin/chpasswd"@,
            "usr/bin/sudo"@,
            "usr/bin/su"@,
            "usr/sbin/login"@,
            "usr/sbin/agetty"@,
        ],
        r@.map_values(|p: (&str, &str)| p.1@) == seq![
            "pam_unix.so hardcoded path - password auth WILL FAIL without this"@,
            "password changes impossible"@,
            "batch password setting broken"@,
            "privilege escalation unavailable"@,
            "user switching unavailable"@,
            "console login broken"@,
            "getty service broken"@,
        ],
{
    let r = vec![
        ("usr/sbin/unix_chkpwd", "pam_unix.so hardcoded path - password auth WILL FAIL without this"),
        ("usr/sbin/passwd", "password changes impossible"),
        ("usr/sbin/chpasswd", "batch password setting broken"),
        ("usr/bin/sudo", "privilege escalation unavailable"),
        ("usr/bin/su", "user switching unavailable"),
        ("usr/sbin/login", "console login broken"),
        ("usr/sbin/agetty", "getty service broken"),
    ];
    assert(r@.map_values(|p: (&str, &str)| p.0@) =~= seq![
        "usr/sbin/unix_chkpwd"@,
        "usr/sbin/passwd"@,
        "usr/sbin/chpasswd"@,
        "usr/bin/sudo"@,
        "usr/bin/su"@,
        "usr/sbin/login"@,
        "usr/sbin/agetty"@,
    ]);
    assert(r@.map_values(|p: (&str, &str)| p.1@) =~= seq![
        "pam_unix.so hardcoded path - password auth WILL FAIL without this"@,
        "password changes impossible"@,
        "batch password setting broken"@,
        "privilege escalation unavailable"@,
        "user switching unavailable"@,
        "console login broken"@,
        "getty service broken"@,
    ]);
    r
}

/// PAM modules that form the core authentication stack.
pub fn critical_pam_modules() -> (r: Vec<(&'static str, &'static str)>)
    ensures
        r@.map_values(|p: (&str, &str)| p.0@) == seq![
            "pam_unix.so"@,
            "pam_permit.so"@,
            "pam_deny.so"@,
            "pam_systemd.so"@,
            "pam_env.so"@,
            "pam_limits.so"@,
        ],
        r@.map_values(|p: (&str, &str)| p.1@) == seq![
            "Core Unix password authentication - login WILL FAIL"@,
            "Required for PAM stack ordering"@,
            "Required for secure fallback"@,
            "Session registration with logind"@,
            "Environment setup for sessions"@,
            "Resource limits enforcement"@,
        ],
{
    let r = vec![
        ("pam_unix.so", "Core Unix password authentication - login WILL FAIL"),
        ("pam_permit.so", "Required for PAM stack ordering"),
        ("pam_deny.so", "Required for secure fallback"),
        ("pam_systemd.so", "Session registration with logind"),
        ("pam_env.so", "Environment setup for sessions"),
        ("pam_limits.so", "Resource limits enforcement"),
    ];
    assert(r@.map_values(|p: (&str, &str)| p.0@) =~= seq![
        "pam_unix.so"@,
        "pam_permit.so"@,
        "pam_deny.so"@,
        "pam_systemd.so"@,
        "pam_env.so"@,
        "pam_limits.so"@,
    ]);
    assert(r@.map_values(|p: (&str, &str)| p.1@) =~= seq![
        "Core Unix password authentication - login WILL FAIL"@,
        "Required for PAM stack ordering"@,
        "Required for secure fallback"@,
        "Session registration with logind"@,
        "Environment setup for sessions"@,
        "Resource limits enforcement"@,
    ]);
    r
}

/// PAM configuration files that must exist.
pub fn critical_pam_configs() -> (r: Vec<(&'static str, &'static str)>)
    ensures
        r@.map_values(|p: (&str, &str)| p.0@) == seq![
            "etc/pam.d/system-auth"@,
            "etc/pam.d/password-auth"@,
            "etc/pam.d/login"@,
            "etc/pam.d/sshd"@,
            "etc/pam.d/sudo"@,
            "etc/pam.d/su"@,
            "etc/pam.d/passwd"@,
            "etc/pam.d/other"@,
        ],
        r@.map_values(|p: (&str, &str)| p.1@) == seq![
            "Main auth stack - ALL authentication uses this"@,
            "Password-based auth (SSH, etc)"@,
            "Console login"@,
            "SSH login"@,
            "sudo privilege escalation"@,
            "su command"@,
            "Password change"@,
            "Fallback (should deny all)"@,
        ],
{
    let r = vec![
        ("etc/pam.d/system-auth", "Main auth stack - ALL authentication uses this"),
        ("etc/pam.d/password-auth", "Password-based auth (SSH, etc)"),
        ("etc/pam.d/login", "Console login"),
        ("etc/pam.d/sshd", "SSH login"),
        ("etc/pam.d/sudo", "sudo privilege escalation"),
        ("etc/pam.d/su", "su command"),
        ("etc/pam.d/passwd", "Password change"),
        ("etc/pam.d/other", "Fallback (should deny all)"),
    ];
    assert(r@.map_values(|p: (&str, &str)| p.0@) =~= seq![
        "etc/pam.d/system-auth"@,
        "etc/pam.d/password-auth"@,
        "etc/pam.d/login"@,
        "etc/pam.d/sshd"@,
        "etc/pam.d/sudo"@,
        "etc/pam.d/su"@,
        "etc/pam.d/passwd"@,
        "etc/pam.d/other"@,
    ]);
    assert(r@.map_values(|p: (&str, &str)| p.1@) =~= seq![
        "Main auth stack - ALL authentication uses this"@,
        "Password-based auth (SSH, etc)"@,
        "Console login"@,
        "SSH login"@,
        "sudo privilege escalation"@,
        "su command"@,
        "Password change"@,
        "Fallback (should deny all)"@,
    ]);
    r
}

/// Security configuration files that enforce policies.
pub fn critical_security_files() -> (r: Vec<(&'static str, &'static str)>)
    ensures
        r@.map_values(|p: (&str, &str)| p.0@) == seq![
            "etc/security/limits.conf"@,
            "etc/security/faillock.conf"@,
            "etc/security/pam_env.conf"@,
            "etc/security/access.conf"@,
            "etc/security/pwquality.conf"@,
        ],
        r@.map_values(|p: (&str, &str)| p.1@) == seq![
            "Resource limits (ulimit)"@,
            "Account lockout after failed attempts"@,
            "PAM environment variables"@,
            "Access control rules"@,
            "Password quality requirements"@,
        ],
{
    let r = vec![
        ("etc/security/limits.conf", "Resource limits (ulimit)"),
        ("etc/security/faillock.conf", "Account lockout after failed attempts"),
        ("etc/security/pam_env.conf", "PAM environment variables"),
        ("etc/security/access.conf", "Access control rules"),
        ("etc/security/pwquality.conf", "Password quality requirements"),
    ];
    assert(r@.map_values(|p: (&str, &str)| p.0@) =~= seq![
        "etc/security/limits.conf"@,
        "etc/security/faillock.conf"@,
        "etc/security/pam_env.conf"@,
        "etc/security/access.conf"@,
        "etc/security/pwquality.conf"@,
    ]);
    assert(r@.map_values(|p: (&str, &str)| p.1@) =~= seq![
        "Resource limits (ulimit)"@,
        "Account lockout after failed attempts"@,
        "PAM environment variables"@,
        "Access control rules"@,
        "Password quality requirements"@,
    ]);
    r
}

/// Files under `/etc` that authentication needs.
pub fn critical_etc_files() -> (r: Vec<(&'static str, &'static str)>)
    ensures
        r@.map_values(|p: (&str, &str)| p.0@) == seq![
            "etc/passwd"@,
            "etc/shadow"@,
            "etc/group"@,
            "etc/gshadow"@,
            "etc/login.defs"@,
            "etc/sudoers"@,
            "etc/sudo.conf"@,
            "etc/shells"@,
            "etc/nsswitch.conf"@,
        ],
        r@.map_values(|p: (&str, &str)| p.1@) == seq![
            "User database"@,
            "Password hashes"@,
            "Group database"@,
            "Group password hashes"@,
            "Login defaults (password aging, UID ranges, encryption)"@,
            "Sudo configuration"@,
            "Sudo runtime config"@,
            "Valid login shells"@,
            "Name service switch (passwd/group resolution)"@,
        ],
{
    let r = vec![
        ("etc/passwd", "User database"),
        ("etc/shadow", "Password hashes"),
        ("etc/group", "Group database"),
        ("etc/gshadow", "Group password hashes"),
        ("etc/login.defs", "Login defaults (password aging, UID ranges, encryption)"),
        ("etc/sudoers", "Sudo configuration"),
        ("etc/sudo.conf", "Sudo runtime config"),
        ("etc/shells", "Valid login shells"),
        ("etc/nsswitch.conf", "Name service switch (passwd/group resolution)"),
    ];
    assert(r@.map_values(|p: (&str, &str)| p.0@) =~= seq![
        "etc/passwd"@,
        "etc/shadow"@,
        "etc/group"@,
        "etc/gshadow"@,
        "etc/login.defs"@,
        "etc/sudoers"@,
        "etc/sudo.conf"@,
        "etc/shells"@,
        "etc/nsswitch.conf"@,
    ]);
    assert(r@.map_values(|p: (&str, &str)| p.1@) =~= seq![
        "User database"@,
        "Password hashes"@,
        "Group database"@,
        "Group password hashes"@,
        "Login defaults (password aging, UID ranges, encryption)"@,
        "Sudo configuration"@,
        "Sudo runtime config"@,
        "Valid login shells"@,
        "Name service switch (passwd/group resolution)"@,
    ]);
    r
}

/// Files that a hardened system should have (a warning where missing).
pub fn recommended_security_files() -> (r: Vec<(&'static str, &'static str)>)
    ensures
        r@.map_values(|p: (&str, &str)| p.0@) == seq![
            "etc/securetty"@,
            "etc/security/namespace.conf"@,
            "etc/security/time.conf"@,
            "etc/security/group.conf"@,
        ],
        r@.map_values(|p: (&str, &str)| p.1@) == seq![
            "Restrict root login to secure terminals"@,
            "Per-user /tmp isolation"@,
            "Time-based access control"@,
            "Group-based access control"@,
        ],
{
    let r = vec![
        ("etc/securetty", "Restrict root login to secure terminals"),
        ("etc/security/namespace.conf", "Per-user /tmp isolation"),
        ("etc/security/time.conf", "Time-based access control"),
        ("etc/security/group.conf", "Group-based access control"),
    ];
    assert(r@.map_values(|p: (&str, &str)| p.0@) =~= seq![
        "etc/securetty"@,
        "etc/security/namespace.conf"@,
        "etc/security/time.conf"@,
        "etc/security/group.conf"@,
    ]);
    assert(r@.map_values(|p: (&str, &str)| p.1@) =~= seq![
        "Restrict root login to secure terminals"@,
        "Per-user /tmp isolation"@,
        "Time-based access control"@,
        "Group-based access control"@,
    ]);
    r
}

/// PAM modules for hardening (a warning where missing).
pub fn recommended_pam_modules() -> (r: Vec<(&'static str, &'static str)>)
    ensures
        r@.map_values(|p: (&str, &str)| p.0@) == seq![
            "pam_faillock.so"@,
            "pam_pwquality.so"@,
            "pam_wheel.so"@,
            "pam_securetty.so"@,
            "pam_nologin.so"@,
            "pam_loginuid.so"@,
            "pam_namespace.so"@,
        ],
        r@.map_values(|p: (&str, &str)| p.1@) == seq![
            "Account lockout after failed login attempts"@,
            "Password strength enforcement"@,
            "Restrict su to wheel group"@,
            "Restrict root to secure terminals"@,
            "Honor /etc/nologin file"@,
            "Audit login UID tracking"@,
            "Polyinstantiated directories"@,
        ],
{
    let r = vec![
        ("pam_faillock.so", "Account lockout after failed login attempts"),
        ("pam_pwquality.so", "Password strength enforcement"),
        ("pam_wheel.so", "Restrict su to wheel group"),
        ("pam_securetty.so", "Restrict root to secure terminals"),
        ("pam_nologin.so", "Honor /etc/nologin file"),
        ("pam_loginuid.so", "Audit login UID tracking"),
        ("pam_namespace.so", "Polyinstantiated directories"),
    ];
    assert(r@.map_values(|p: (&str, &str)| p.0@) =~= seq![
        "pam_faillock.so"@,
        "pam_pwquality.so"@,
        "pam_wheel.so"@,
        "pam_securetty.so"@,
        "pam_nologin.so"@,
        "pam_loginuid.so"@,
        "pam_namespace.so"@,
    ]);
    assert(r@.map_values(|p: (&str, &str)| p.1@) =~= seq![
        "Account lockout after failed login attempts"@,
        "Password strength enforcement"@,
        "Restrict su to wheel group"@,
        "Restrict root to secure terminals"@,
        "Honor /etc/nologin file"@,
        "Audit login UID tracking"@,
        "Polyinstantiated directories"@,
    ]);
    r
}

} // verus!

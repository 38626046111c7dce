//! What the sample configuration file says.
use vstd::prelude::*;
use vstd::string::*;

use crate::config;
use crate::config::{ConfigErrorView, ConfigView, LogLevel, Platform, SAMPLE_CONFIG};
use crate::directive;
use crate::directive::{
    CountSetting, Directive, FlagSetting, PathSetting, SpanSetting, WidthSetting,
};
use crate::native_paths;
use crate::paths;
use crate::text;
use crate::time::Duration;
use crate::values;
use crate::values::ValueErrorView;

verus! {

/// A line that sets a directive to a value.
spec fn setting_line(d: Directive, value: Seq<char>) -> Seq<char> {
    d.name() + seq![' '] + value
}

/// A line that sets a path.
spec fn path_line(setting: PathSetting, value: Seq<char>) -> Seq<char> {
    setting_line(Directive::Path(setting), value)
}

/// A line that sets a flag.
spec fn flag_line(setting: FlagSetting, value: Seq<char>) -> Seq<char> {
    setting_line(Directive::Flag(setting), value)
}

/// A line that sets a count.
spec fn count_line(setting: CountSetting, value: Seq<char>) -> Seq<char> {
    setting_line(Directive::Count(setting), value)
}

/// A line that sets a span of time.
spec fn span_line(setting: SpanSetting, value: Seq<char>) -> Seq<char> {
    setting_line(Directive::Span(setting), value)
}

/// A line that sets a width.
spec fn width_line(setting: WidthSetting, value: Seq<char>) -> Seq<char> {
    setting_line(Directive::Width(setting), value)
}

/// A line of the sample configuration file.
spec fn sample_line(i: int) -> Seq<char> {
    text::split_at_char(SAMPLE_CONFIG@, '\n')[i]
}

/// Whether a text can stand as one word in front of a comment.
spec fn is_word(w: Seq<char>) -> bool {
    w.len() > 0 && forall|i: int|
        0 <= i < w.len() ==> !text::whitespace(#[trigger] w[i]) && w[i] != '#'
}

proof fn lemma_word_len(w: Seq<char>, s: Seq<char>)
    requires
        forall|i: int| 0 <= i < w.len() ==> !text::whitespace(#[trigger] w[i]),
        s.len() >= w.len(),
        s.take(w.len() as int) == w,
        s.len() > w.len() ==> text::whitespace(s[w.len() as int]),
    ensures
        text::word_len(s) == w.len(),
    decreases w.len(),
{
    if w.len() > 0 {
        assert(w[0] == s[0]);
        assert(s.skip(1).take(w.len() - 1) =~= w.skip(1));
        assert forall|i: int| 0 <= i < w.len() - 1 implies !text::whitespace(
            #[trigger] w.skip(1)[i],
        ) by {
            assert(w.skip(1)[i] == w[i + 1]);
        }
        lemma_word_len(w.skip(1), s.skip(1));
    }
}

proof fn lemma_one_word(w: Seq<char>)
    requires
        is_word(w),
    ensures
        text::words_of(w) == seq![w],
{
    assert(w.take(w.len() as int) =~= w);
    lemma_word_len(w, w);
    assert(!text::whitespace(w[0]));
    assert(text::words_of(w.skip(w.len() as int)) =~= Seq::<Seq<char>>::empty());
    assert(text::words_of(w) =~= seq![w]);
}

/// A word in front of a blank and more text comes first among the words.
proof fn lemma_first_word(w: Seq<char>, rest: Seq<char>)
    requires
        is_word(w),
        is_word(seq![rest[0]]),
        rest.len() > 0,
    ensures
        text::words_of(w + seq![' '] + rest) == seq![w] + text::words_of(rest),
{
    let s = w + seq![' '] + rest;
    assert(s.take(w.len() as int) =~= w);
    lemma_word_len(w, s);
    assert(!text::whitespace(w[0]) && s[0] == w[0]);
    let tail = s.skip(w.len() as int);
    assert(tail[0] == ' ');
    assert(tail.skip(1) =~= rest);
    assert(!text::whitespace(seq![rest[0]][0]));
    reveal_with_fuel(text::trimmed_start, 3);
    assert(text::trimmed_start(tail) == rest);
    assert(text::trimmed_start(rest) == rest);
    assert(text::words_of(tail) =~= text::words_of(rest)) by {
        lemma_word_len_positive(rest);
    }
}

proof fn lemma_word_len_positive(s: Seq<char>)
    requires
        s.len() > 0,
        !text::whitespace(s[0]),
    ensures
        0 < text::word_len(s) <= s.len(),
    decreases s.len(),
{
    if s.len() > 1 && !text::whitespace(s[1]) {
        lemma_word_len_positive(s.skip(1));
    } else {
        reveal_with_fuel(text::word_len, 3);
        if s.len() > 1 {
            assert(s.skip(1)[0] == s[1]);
        }
    }
}

proof fn lemma_no_comment(s: Seq<char>)
    requires
        forall|i: int| 0 <= i < s.len() ==> (#[trigger] s[i]) != '#',
    ensures
        s.take(text::find_char(s, '#') as int) == s,
{
    text::lemma_find_char(s, '#');
    assert(s.take(s.len() as int) =~= s);
}

/// Whether a line leaves the settings as they are.
spec fn keeps(c: ConfigView, line: Seq<char>, base_dir: Seq<char>, home: Option<Seq<char>>) -> bool {
    forall|n: nat| #[trigger]
        config::line_outcome(c, line, n, base_dir, home) == (c, None::<ConfigErrorView>)
}

/// Whether a line leaves the defaults as they are.
spec fn kept(
    home: Seq<char>,
    dir: Option<Seq<char>>,
    base_dir: Seq<char>,
    line: Seq<char>,
) -> bool {
    keeps(config::default_settings(home, dir, Platform::Unix), line, base_dir, Some(home))
}

/// A directive that changes nothing stands on a line that changes nothing.
proof fn lemma_keeps(
    c: ConfigView,
    d: Directive,
    value: Seq<char>,
    base_dir: Seq<char>,
    home: Option<Seq<char>>,
)
    requires
        is_word(d.name()),
        is_word(value),
        forall|n: nat| #[trigger]
            config::directive_outcome(c, d, seq![value], n, base_dir, home) == (
                c,
                None::<ConfigErrorView>,
            ),
    ensures
        keeps(c, setting_line(d, value), base_dir, home),
{
    let line = setting_line(d, value);
    let name = d.name();
    assert forall|i: int| 0 <= i < line.len() implies (#[trigger] line[i]) != '#' by {
        if i < name.len() {
            assert(line[i] == name[i]);
        } else if i > name.len() {
            assert(line[i] == value[i - name.len() - 1]);
        }
    }
    lemma_no_comment(line);
    assert(is_word(seq![value[0]]));
    lemma_first_word(name, value);
    lemma_one_word(value);
    let words = config::line_words(line);
    assert(words =~= seq![name, value]);
    assert(words.skip(1) =~= seq![value]);
    directive::law_directive_found_by_name(d, name);
    assert forall|n: nat| #[trigger]
        config::line_outcome(c, line, n, base_dir, home) == (c, None::<ConfigErrorView>) by {
        assert(config::directive_outcome(c, d, seq![value], n, base_dir, home) == (
            c,
            None::<ConfigErrorView>,
        ));
    }
}

/// A comment and a blank line leave the settings as they are.
proof fn lemma_comment_keeps(
    c: ConfigView,
    line: Seq<char>,
    base_dir: Seq<char>,
    home: Option<Seq<char>>,
)
    requires
        line.len() == 0 || line[0] == '#',
    ensures
        keeps(c, line, base_dir, home),
{
    assert(line.take(0) =~= Seq::<char>::empty());
    assert(config::line_words(line) =~= Seq::<Seq<char>>::empty());
}

proof fn lemma_trimmed_word(w: Seq<char>)
    requires
        is_word(w),
    ensures
        text::trimmed(w) == w,
{
    assert(!text::whitespace(w[0]));
    assert(!text::whitespace(w[w.len() - 1]));
}

/// A span of time spelled as digits and a unit.
proof fn lemma_span(digits: Seq<char>, unit: Seq<char>, value: nat)
    requires
        digits.len() > 0,
        forall|i: int| 0 <= i < digits.len() ==> text::digit(#[trigger] digits[i]),
        is_word(unit),
        !text::digit(unit[0]),
        values::integer_value(digits, u64::MAX as nat) == Ok::<nat, ValueErrorView>(value),
        values::span_of(value, text::lowered(unit)) is Some,
    ensures
        values::duration_value(digits + unit) == Ok::<Duration, ValueErrorView>(
            values::span_of(value, text::lowered(unit))->Some_0,
        ),
{
    let w = digits + unit;
    assert(is_word(w)) by {
        assert forall|i: int| 0 <= i < w.len() implies !text::whitespace(#[trigger] w[i]) && w[i]
            != '#' by {
            if i < digits.len() {
                assert(w[i] == digits[i]);
            } else {
                assert(w[i] == unit[i - digits.len()]);
            }
        }
    }
    lemma_trimmed_word(w);
    lemma_digit_run(digits, unit);
    assert(w.take(digits.len() as int) =~= digits);
    assert(w.skip(digits.len() as int) =~= unit);
}

proof fn lemma_digit_run(digits: Seq<char>, rest: Seq<char>)
    requires
        forall|i: int| 0 <= i < digits.len() ==> text::digit(#[trigger] digits[i]),
        rest.len() > 0 ==> !text::digit(rest[0]),
    ensures
        text::digit_run(digits + rest) == digits.len(),
    decreases digits.len(),
{
    let w = digits + rest;
    if digits.len() > 0 {
        assert(w[0] == digits[0]);
        assert(w.skip(1) =~= digits.skip(1) + rest);
        assert forall|i: int| 0 <= i < digits.len() - 1 implies text::digit(
            #[trigger] digits.skip(1)[i],
        ) by {
            assert(digits.skip(1)[i] == digits[i + 1]);
        }
        lemma_digit_run(digits.skip(1), rest);
    } else {
        assert(w =~= rest);
    }
}

/// Whether the piece with the number `k` starts at `off`.
#[verifier::opaque]
spec fn starts_at(s: Seq<char>, k: int, off: int) -> bool {
    let all = text::split_at_char(s, '\n');
    0 <= off <= s.len() && 0 <= k < all.len() && all.skip(k) == text::split_at_char(
        s.skip(off),
        '\n',
    )
}

proof fn lemma_next_line(s: Seq<char>, k: int, off: int, line: Seq<char>)
    requires
        starts_at(s, k, off),
        off + line.len() < s.len(),
        s.subrange(off, off + line.len()) == line,
        s[off + line.len()] == '\n',
        forall|i: int| 0 <= i < line.len() ==> (#[trigger] line[i]) != '\n',
    ensures
        text::split_at_char(s, '\n')[k] == line,
        starts_at(s, k + 1, off + line.len() + 1),
{
    reveal(starts_at);
    let all = text::split_at_char(s, '\n');
    let t = s.skip(off);
    let n = text::find_char(t, '\n') as int;
    text::lemma_find_char(t, '\n');
    assert(t[line.len() as int] == '\n');
    assert(n == line.len()) by {
        if n < line.len() {
            assert(t[n] == line[n]);
        }
    }
    assert(t.take(n) =~= line);
    assert(t.skip(n + 1) =~= s.skip(off + n + 1));
    let rest = text::split_at_char(s.skip(off + n + 1), '\n');
    assert(all.skip(k) == seq![line] + rest);
    assert(all.skip(k)[0] == line);
    assert(rest.len() > 0) by {
        text::lemma_find_char(s.skip(off + n + 1), '\n');
    }
    assert(all.skip(k + 1) =~= all.skip(k).skip(1));
    assert(all.skip(k).skip(1) =~= rest);
}

/// The lines of the sample configuration file.
#[verifier::rlimit(60)]
proof fn lemma_sample_lines()
    ensures
        text::split_at_char(SAMPLE_CONFIG@, '\n').len() == 45,
        sample_line(0) == "# narrowd sample config"@,
        sample_line(1) == "# single-user SSH daemon"@,
        sample_line(2) == setting_line(Directive::Port, "2222"@),
        sample_line(3) == setting_line(Directive::ListenAddress, "0.0.0.0"@),
        sample_line(4) == ""@,
        sample_line(5) == path_line(PathSetting::HostKey, "~/.config/narrowd/ssh_host_ed25519_key"@),
        sample_line(6) == path_line(PathSetting::AuthorizedKeysFile, "~/.ssh/authorized_keys"@),
        sample_line(7) == ""@,
        sample_line(8) == setting_line(Directive::Shell, "/bin/bash"@),
        sample_line(9) == flag_line(FlagSetting::PermitTty, "yes"@),
        sample_line(10) == flag_line(FlagSetting::PermitExec, "yes"@),
        sample_line(11) == ""@,
        sample_line(12) == setting_line(Directive::Subsystem, "sftp"@ + seq![' '] + "internal-sftp"@),
        sample_line(13) == flag_line(FlagSetting::AllowTcpForwarding, "yes"@),
        sample_line(14) == flag_line(FlagSetting::AllowRemoteForwarding, "yes"@),
        sample_line(15) == flag_line(FlagSetting::GatewayPorts, "yes"@),
        sample_line(16) == ""@,
        sample_line(17) == "# Public exposure hardening defaults"@,
        sample_line(18) == count_line(CountSetting::MaxUnauthConnectionsGlobal, "16"@),
        sample_line(19) == count_line(CountSetting::MaxUnauthConnectionsPerIp, "3"@),
        sample_line(20) == count_line(CountSetting::MaxUnauthConnectionsPerSubnet, "8"@),
        sample_line(21) == count_line(CountSetting::NewConnectionsPerMinutePerIp, "12"@),
        sample_line(22) == count_line(CountSetting::NewConnectionsBurstPerIp, "4"@),
        sample_line(23) == span_line(SpanSetting::LoginGraceTime, "15s"@),
        sample_line(24) == span_line(SpanSetting::ClientBannerTimeout, "5s"@),
        sample_line(25) == span_line(SpanSetting::KexStartTimeout, "5s"@),
        sample_line(26) == count_line(CountSetting::MaxAuthAttempts, "4"@),
        sample_line(27) == span_line(SpanSetting::AuthRejectionTime, "2s"@),
        sample_line(28) == count_line(CountSetting::AuthFailureBanThreshold, "8"@),
        sample_line(29) == span_line(SpanSetting::AuthFailureBanWindow, "10m"@),
        sample_line(30) == span_line(SpanSetting::AuthFailureBanDuration, "15m"@),
        sample_line(31) == span_line(SpanSetting::InactivityTimeout, "15m"@),
        sample_line(32) == span_line(SpanSetting::KeepaliveInterval, "30s"@),
        sample_line(33) == count_line(CountSetting::KeepaliveMax, "3"@),
        sample_line(34) == count_line(CountSetting::ChannelBufferSize, "32"@),
        sample_line(35) == count_line(CountSetting::EventBufferSize, "16"@),
        sample_line(36) == width_line(WidthSetting::WindowSize, "1048576"@),
        sample_line(37) == width_line(WidthSetting::MaximumPacketSize, "32768"@),
        sample_line(38) == flag_line(FlagSetting::NoDelay, "yes"@),
        sample_line(39) == setting_line(Directive::AuthorizedKeysMaxSize, "256KiB"@),
        sample_line(40) == count_line(CountSetting::AuthorizedKeysMaxEntries, "128"@),
        sample_line(41) == span_line(SpanSetting::AuthorizedKeysReloadInterval, "2s"@),
        sample_line(42) == ""@,
        sample_line(43) == setting_line(Directive::LogLevel, "info"@),
        sample_line(44) == ""@,
{
    let s = SAMPLE_CONFIG@;
    let all = text::split_at_char(s, '\n');
    reveal_strlit(
        "\
# narrowd sample config
# single-user SSH daemon
Port 2222
ListenAddress 0.0.0.0

HostKey ~/.config/narrowd/ssh_host_ed25519_key
AuthorizedKeysFile ~/.ssh/authorized_keys

Shell /bin/bash
PermitTTY yes
PermitExec yes

Subsystem sftp internal-sftp
AllowTcpForwarding yes
AllowRemoteForwarding yes
GatewayPorts yes

# Public exposure hardening defaults
MaxUnauthConnectionsGlobal 16
MaxUnauthConnectionsPerIp 3
MaxUnauthConnectionsPerSubnet 8
NewConnectionsPerMinutePerIp 12
NewConnectionsBurstPerIp 4
LoginGraceTime 15s
ClientBannerTimeout 5s
KexStartTimeout 5s
MaxAuthAttempts 4
AuthRejectionTime 2s
AuthFailureBanThreshold 8
AuthFailureBanWindow 10m
AuthFailureBanDuration 15m
InactivityTimeout 15m
KeepaliveInterval 30s
KeepaliveMax 3
ChannelBufferSize 32
EventBufferSize 16
WindowSize 1048576
MaximumPacketSize 32768
NoDelay yes
AuthorizedKeysMaxSize 256KiB
AuthorizedKeysMaxEntries 128
AuthorizedKeysReloadInterval 2s

LogLevel info
",
    );
    assert(starts_at(s, 0, 0)) by {
        reveal(starts_at);
        assert(s.skip(0) =~= s);
        assert(all.skip(0) =~= all);
        text::lemma_find_char(s, '\n');
    }
    assert({
        &&& all[0] == "# narrowd sample config"@
        &&& starts_at(s, 1, 24)
    }) by {
        reveal_strlit("# narrowd sample config");
        let line = "# narrowd sample config"@;
        assert(s.subrange(0, 23) =~= line);
        lemma_next_line(s, 0, 0, line);
    }
    assert({
        &&& all[1] == "# single-user SSH daemon"@
        &&& starts_at(s, 2, 49)
    }) by {
        reveal_strlit("# single-user SSH daemon");
        let line = "# single-user SSH daemon"@;
        assert(s.subrange(24, 48) =~= line);
        lemma_next_line(s, 1, 24, line);
    }
    assert({
        &&& all[2] == setting_line(Directive::Port, "2222"@)
        &&& starts_at(s, 3, 59)
    }) by {
        reveal_strlit("Port");
        reveal_strlit("2222");
        let line = setting_line(Directive::Port, "2222"@);
        assert(s.subrange(49, 58) =~= line);
        lemma_next_line(s, 2, 49, line);
    }
    assert({
        &&& all[3] == setting_line(Directive::ListenAddress, "0.0.0.0"@)
        &&& starts_at(s, 4, 81)
    }) by {
        reveal_strlit("ListenAddress");
        reveal_strlit("0.0.0.0");
        let line = setting_line(Directive::ListenAddress, "0.0.0.0"@);
        assert(s.subrange(59, 80) =~= line);
        lemma_next_line(s, 3, 59, line);
    }
    assert({
        &&& all[4] == ""@
        &&& starts_at(s, 5, 82)
    }) by {
        reveal_strlit("");
        let line = ""@;
        assert(s.subrange(81, 81) =~= line);
        lemma_next_line(s, 4, 81, line);
    }
    assert({
        &&& all[5] == path_line(PathSetting::HostKey, "~/.config/narrowd/ssh_host_ed25519_key"@)
        &&& starts_at(s, 6, 129)
    }) by {
        reveal_strlit("HostKey");
        reveal_strlit("~/.config/narrowd/ssh_host_ed25519_key");
        let line = path_line(PathSetting::HostKey, "~/.config/narrowd/ssh_host_ed25519_key"@);
        assert(s.subrange(82, 128) =~= line);
        lemma_next_line(s, 5, 82, line);
    }
    assert({
        &&& all[6] == path_line(PathSetting::AuthorizedKeysFile, "~/.ssh/authorized_keys"@)
        &&& starts_at(s, 7, 171)
    }) by {
        reveal_strlit("AuthorizedKeysFile");
        reveal_strlit("~/.ssh/authorized_keys");
        let line = path_line(PathSetting::AuthorizedKeysFile, "~/.ssh/authorized_keys"@);
        assert(s.subrange(129, 170) =~= line);
        lemma_next_line(s, 6, 129, line);
    }
    assert({
        &&& all[7] == ""@
        &&& starts_at(s, 8, 172)
    }) by {
        reveal_strlit("");
        let line = ""@;
        assert(s.subrange(171, 171) =~= line);
        lemma_next_line(s, 7, 171, line);
    }
    assert({
        &&& all[8] == setting_line(Directive::Shell, "/bin/bash"@)
        &&& starts_at(s, 9, 188)
    }) by {
        reveal_strlit("Shell");
        reveal_strlit("/bin/bash");
        let line = setting_line(Directive::Shell, "/bin/bash"@);
        assert(s.subrange(172, 187) =~= line);
        lemma_next_line(s, 8, 172, line);
    }
    assert({
        &&& all[9] == flag_line(FlagSetting::PermitTty, "yes"@)
        &&& starts_at(s, 10, 202)
    }) by {
        reveal_strlit("PermitTTY");
        reveal_strlit("yes");
        let line = flag_line(FlagSetting::PermitTty, "yes"@);
        assert(s.subrange(188, 201) =~= line);
        lemma_next_line(s, 9, 188, line);
    }
    assert({
        &&& all[10] == flag_line(FlagSetting::PermitExec, "yes"@)
        &&& starts_at(s, 11, 217)
    }) by {
        reveal_strlit("PermitExec");
        reveal_strlit("yes");
        let line = flag_line(FlagSetting::PermitExec, "yes"@);
        assert(s.subrange(202, 216) =~= line);
        lemma_next_line(s, 10, 202, line);
    }
    assert({
        &&& all[11] == ""@
        &&& starts_at(s, 12, 218)
    }) by {
        reveal_strlit("");
        let line = ""@;
        assert(s.subrange(217, 217) =~= line);
        lemma_next_line(s, 11, 217, line);
    }
    assert({
        &&& all[12] == setting_line(Directive::Subsystem, "sftp"@ + seq![' '] + "internal-sftp"@)
        &&& starts_at(s, 13, 247)
    }) by {
        reveal_strlit("Subsystem");
        reveal_strlit("sftp");
        reveal_strlit("internal-sftp");
        let line = setting_line(Directive::Subsystem, "sftp"@ + seq![' '] + "internal-sftp"@);
        assert(s.subrange(218, 246) =~= line);
        lemma_next_line(s, 12, 218, line);
    }
    assert({
        &&& all[13] == flag_line(FlagSetting::AllowTcpForwarding, "yes"@)
        &&& starts_at(s, 14, 270)
    }) by {
        reveal_strlit("AllowTcpForwarding");
        reveal_strlit("yes");
        let line = flag_line(FlagSetting::AllowTcpForwarding, "yes"@);
        assert(s.subrange(247, 269) =~= line);
        lemma_next_line(s, 13, 247, line);
    }
    assert({
        &&& all[14] == flag_line(FlagSetting::AllowRemoteForwarding, "yes"@)
        &&& starts_at(s, 15, 296)
    }) by {
        reveal_strlit("AllowRemoteForwarding");
        reveal_strlit("yes");
        let line = flag_line(FlagSetting::AllowRemoteForwarding, "yes"@);
        assert(s.subrange(270, 295) =~= line);
        lemma_next_line(s, 14, 270, line);
    }
    assert({
        &&& all[15] == flag_line(FlagSetting::GatewayPorts, "yes"@)
        &&& starts_at(s, 16, 313)
    }) by {
        reveal_strlit("GatewayPorts");
        reveal_strlit("yes");
        let line = flag_line(FlagSetting::GatewayPorts, "yes"@);
        assert(s.subrange(296, 312) =~= line);
        lemma_next_line(s, 15, 296, line);
    }
    assert({
        &&& all[16] == ""@
        &&& starts_at(s, 17, 314)
    }) by {
        reveal_strlit("");
        let line = ""@;
        assert(s.subrange(313, 313) =~= line);
        lemma_next_line(s, 16, 313, line);
    }
    assert({
        &&& all[17] == "# Public exposure hardening defaults"@
        &&& starts_at(s, 18, 351)
    }) by {
        reveal_strlit("# Public exposure hardening defaults");
        let line = "# Public exposure hardening defaults"@;
        assert(s.subrange(314, 350) =~= line);
        lemma_next_line(s, 17, 314, line);
    }
    assert({
        &&& all[18] == count_line(CountSetting::MaxUnauthConnectionsGlobal, "16"@)
        &&& starts_at(s, 19, 381)
    }) by {
        reveal_strlit("MaxUnauthConnectionsGlobal");
        reveal_strlit("16");
        let line = count_line(CountSetting::MaxUnauthConnectionsGlobal, "16"@);
        assert(s.subrange(351, 380) =~= line);
        lemma_next_line(s, 18, 351, line);
    }
    assert({
        &&& all[19] == count_line(CountSetting::MaxUnauthConnectionsPerIp, "3"@)
        &&& starts_at(s, 20, 409)
    }) by {
        reveal_strlit("MaxUnauthConnectionsPerIp");
        reveal_strlit("3");
        let line = count_line(CountSetting::MaxUnauthConnectionsPerIp, "3"@);
        assert(s.subrange(381, 408) =~= line);
        lemma_next_line(s, 19, 381, line);
    }
    assert({
        &&& all[20] == count_line(CountSetting::MaxUnauthConnectionsPerSubnet, "8"@)
        &&& starts_at(s, 21, 441)
    }) by {
        reveal_strlit("MaxUnauthConnectionsPerSubnet");
        reveal_strlit("8");
        let line = count_line(CountSetting::MaxUnauthConnectionsPerSubnet, "8"@);
        assert(s.subrange(409, 440) =~= line);
        lemma_next_line(s, 20, 409, line);
    }
    assert({
        &&& all[21] == count_line(CountSetting::NewConnectionsPerMinutePerIp, "12"@)
        &&& starts_at(s, 22, 473)
    }) by {
        reveal_strlit("NewConnectionsPerMinutePerIp");
        reveal_strlit("12");
        let line = count_line(CountSetting::NewConnectionsPerMinutePerIp, "12"@);
        assert(s.subrange(441, 472) =~= line);
        lemma_next_line(s, 21, 441, line);
    }
    assert({
        &&& all[22] == count_line(CountSetting::NewConnectionsBurstPerIp, "4"@)
        &&& starts_at(s, 23, 500)
    }) by {
        reveal_strlit("NewConnectionsBurstPerIp");
        reveal_strlit("4");
        let line = count_line(CountSetting::NewConnectionsBurstPerIp, "4"@);
        assert(s.subrange(473, 499) =~= line);
        lemma_next_line(s, 22, 473, line);
    }
    assert({
        &&& all[23] == span_line(SpanSetting::LoginGraceTime, "15s"@)
        &&& starts_at(s, 24, 519)
    }) by {
        reveal_strlit("LoginGraceTime");
        reveal_strlit("15s");
        let line = span_line(SpanSetting::LoginGraceTime, "15s"@);
        assert(s.subrange(500, 518) =~= line);
        lemma_next_line(s, 23, 500, line);
    }
    assert({
        &&& all[24] == span_line(SpanSetting::ClientBannerTimeout, "5s"@)
        &&& starts_at(s, 25, 542)
    }) by {
        reveal_strlit("ClientBannerTimeout");
        reveal_strlit("5s");
        let line = span_line(SpanSetting::ClientBannerTimeout, "5s"@);
        assert(s.subrange(519, 541) =~= line);
        lemma_next_line(s, 24, 519, line);
    }
    assert({
        &&& all[25] == span_line(SpanSetting::KexStartTimeout, "5s"@)
        &&& starts_at(s, 26, 561)
    }) by {
        reveal_strlit("KexStartTimeout");
        reveal_strlit("5s");
        let line = span_line(SpanSetting::KexStartTimeout, "5s"@);
        assert(s.subrange(542, 560) =~= line);
        lemma_next_line(s, 25, 542, line);
    }
    assert({
        &&& all[26] == count_line(CountSetting::MaxAuthAttempts, "4"@)
        &&& starts_at(s, 27, 579)
    }) by {
        reveal_strlit("MaxAuthAttempts");
        reveal_strlit("4");
        let line = count_line(CountSetting::MaxAuthAttempts, "4"@);
        assert(s.subrange(561, 578) =~= line);
        lemma_next_line(s, 26, 561, line);
    }
    assert({
        &&& all[27] == span_line(SpanSetting::AuthRejectionTime, "2s"@)
        &&& starts_at(s, 28, 600)
    }) by {
        reveal_strlit("AuthRejectionTime");
        reveal_strlit("2s");
        let line = span_line(SpanSetting::AuthRejectionTime, "2s"@);
        assert(s.subrange(579, 599) =~= line);
        lemma_next_line(s, 27, 579, line);
    }
    assert({
        &&& all[28] == count_line(CountSetting::AuthFailureBanThreshold, "8"@)
        &&& starts_at(s, 29, 626)
    }) by {
        reveal_strlit("AuthFailureBanThreshold");
        reveal_strlit("8");
        let line = count_line(CountSetting::AuthFailureBanThreshold, "8"@);
        assert(s.subrange(600, 625) =~= line);
        lemma_next_line(s, 28, 600, line);
    }
    assert({
        &&& all[29] == span_line(SpanSetting::AuthFailureBanWindow, "10m"@)
        &&& starts_at(s, 30, 651)
    }) by {
        reveal_strlit("AuthFailureBanWindow");
        reveal_strlit("10m");
        let line = span_line(SpanSetting::AuthFailureBanWindow, "10m"@);
        assert(s.subrange(626, 650) =~= line);
        lemma_next_line(s, 29, 626, line);
    }
    assert({
        &&& all[30] == span_line(SpanSetting::AuthFailureBanDuration, "15m"@)
        &&& starts_at(s, 31, 678)
    }) by {
        reveal_strlit("AuthFailureBanDuration");
        reveal_strlit("15m");
        let line = span_line(SpanSetting::AuthFailureBanDuration, "15m"@);
        assert(s.subrange(651, 677) =~= line);
        lemma_next_line(s, 30, 651, line);
    }
    assert({
        &&& all[31] == span_line(SpanSetting::InactivityTimeout, "15m"@)
        &&& starts_at(s, 32, 700)
    }) by {
        reveal_strlit("InactivityTimeout");
        reveal_strlit("15m");
        let line = span_line(SpanSetting::InactivityTimeout, "15m"@);
        assert(s.subrange(678, 699) =~= line);
        lemma_next_line(s, 31, 678, line);
    }
    assert({
        &&& all[32] == span_line(SpanSetting::KeepaliveInterval, "30s"@)
        &&& starts_at(s, 33, 722)
    }) by {
        reveal_strlit("KeepaliveInterval");
        reveal_strlit("30s");
        let line = span_line(SpanSetting::KeepaliveInterval, "30s"@);
        assert(s.subrange(700, 721) =~= line);
        lemma_next_line(s, 32, 700, line);
    }
    assert({
        &&& all[33] == count_line(CountSetting::KeepaliveMax, "3"@)
        &&& starts_at(s, 34, 737)
    }) by {
        reveal_strlit("KeepaliveMax");
        reveal_strlit("3");
        let line = count_line(CountSetting::KeepaliveMax, "3"@);
        assert(s.subrange(722, 736) =~= line);
        lemma_next_line(s, 33, 722, line);
    }
    assert({
        &&& all[34] == count_line(CountSetting::ChannelBufferSize, "32"@)
        &&& starts_at(s, 35, 758)
    }) by {
        reveal_strlit("ChannelBufferSize");
        reveal_strlit("32");
        let line = count_line(CountSetting::ChannelBufferSize, "32"@);
        assert(s.subrange(737, 757) =~= line);
        lemma_next_line(s, 34, 737, line);
    }
    assert({
        &&& all[35] == count_line(CountSetting::EventBufferSize, "16"@)
        &&& starts_at(s, 36, 777)
    }) by {
        reveal_strlit("EventBufferSize");
        reveal_strlit("16");
        let line = count_line(CountSetting::EventBufferSize, "16"@);
        assert(s.subrange(758, 776) =~= line);
        lemma_next_line(s, 35, 758, line);
    }
    assert({
        &&& all[36] == width_line(WidthSetting::WindowSize, "1048576"@)
        &&& starts_at(s, 37, 796)
    }) by {
        reveal_strlit("WindowSize");
        reveal_strlit("1048576");
        let line = width_line(WidthSetting::WindowSize, "1048576"@);
        assert(s.subrange(777, 795) =~= line);
        lemma_next_line(s, 36, 777, line);
    }
    assert({
        &&& all[37] == width_line(WidthSetting::MaximumPacketSize, "32768"@)
        &&& starts_at(s, 38, 820)
    }) by {
        reveal_strlit("MaximumPacketSize");
        reveal_strlit("32768");
        let line = width_line(WidthSetting::MaximumPacketSize, "32768"@);
        assert(s.subrange(796, 819) =~= line);
        lemma_next_line(s, 37, 796, line);
    }
    assert({
        &&& all[38] == flag_line(FlagSetting::NoDelay, "yes"@)
        &&& starts_at(s, 39, 832)
    }) by {
        reveal_strlit("NoDelay");
        reveal_strlit("yes");
        let line = flag_line(FlagSetting::NoDelay, "yes"@);
        assert(s.subrange(820, 831) =~= line);
        lemma_next_line(s, 38, 820, line);
    }
    assert({
        &&& all[39] == setting_line(Directive::AuthorizedKeysMaxSize, "256KiB"@)
        &&& starts_at(s, 40, 861)
    }) by {
        reveal_strlit("AuthorizedKeysMaxSize");
        reveal_strlit("256KiB");
        let line = setting_line(Directive::AuthorizedKeysMaxSize, "256KiB"@);
        assert(s.subrange(832, 860) =~= line);
        lemma_next_line(s, 39, 832, line);
    }
    assert({
        &&& all[40] == count_line(CountSetting::AuthorizedKeysMaxEntries, "128"@)
        &&& starts_at(s, 41, 890)
    }) by {
        reveal_strlit("AuthorizedKeysMaxEntries");
        reveal_strlit("128");
        let line = count_line(CountSetting::AuthorizedKeysMaxEntries, "128"@);
        assert(s.subrange(861, 889) =~= line);
        lemma_next_line(s, 40, 861, line);
    }
    assert({
        &&& all[41] == span_line(SpanSetting::AuthorizedKeysReloadInterval, "2s"@)
        &&& starts_at(s, 42, 922)
    }) by {
        reveal_strlit("AuthorizedKeysReloadInterval");
        reveal_strlit("2s");
        let line = span_line(SpanSetting::AuthorizedKeysReloadInterval, "2s"@);
        assert(s.subrange(890, 921) =~= line);
        lemma_next_line(s, 41, 890, line);
    }
    assert({
        &&& all[42] == ""@
        &&& starts_at(s, 43, 923)
    }) by {
        reveal_strlit("");
        let line = ""@;
        assert(s.subrange(922, 922) =~= line);
        lemma_next_line(s, 42, 922, line);
    }
    assert({
        &&& all[43] == setting_line(Directive::LogLevel, "info"@)
        &&& starts_at(s, 44, 937)
    }) by {
        reveal_strlit("LogLevel");
        reveal_strlit("info");
        let line = setting_line(Directive::LogLevel, "info"@);
        assert(s.subrange(923, 936) =~= line);
        lemma_next_line(s, 43, 923, line);
    }
    assert(all.len() == 45 && all[44] == ""@) by {
        reveal(starts_at);
        reveal_strlit("");
        assert(s.skip(937) =~= ""@);
        text::lemma_find_char(""@, '\n');
        assert(text::split_at_char(""@, '\n') == seq![""@]);
        assert(all.skip(44)[0] == ""@);
    }
}

proof fn lemma_counts_kept(home: Seq<char>, dir: Option<Seq<char>>, base_dir: Seq<char>)
    ensures
        kept(home, dir, base_dir, count_line(CountSetting::MaxUnauthConnectionsGlobal, "16"@)),
        kept(home, dir, base_dir, count_line(CountSetting::MaxUnauthConnectionsPerIp, "3"@)),
        kept(home, dir, base_dir, count_line(CountSetting::MaxUnauthConnectionsPerSubnet, "8"@)),
        kept(home, dir, base_dir, count_line(CountSetting::NewConnectionsPerMinutePerIp, "12"@)),
        kept(home, dir, base_dir, count_line(CountSetting::NewConnectionsBurstPerIp, "4"@)),
        kept(home, dir, base_dir, count_line(CountSetting::MaxAuthAttempts, "4"@)),
        kept(home, dir, base_dir, count_line(CountSetting::AuthFailureBanThreshold, "8"@)),
        kept(home, dir, base_dir, count_line(CountSetting::KeepaliveMax, "3"@)),
        kept(home, dir, base_dir, count_line(CountSetting::ChannelBufferSize, "32"@)),
        kept(home, dir, base_dir, count_line(CountSetting::EventBufferSize, "16"@)),
        kept(home, dir, base_dir, count_line(CountSetting::AuthorizedKeysMaxEntries, "128"@)),
{
    let c = config::default_settings(home, dir, Platform::Unix);
    assert(kept(home, dir, base_dir, count_line(CountSetting::MaxUnauthConnectionsGlobal, "16"@))) by {
        reveal_strlit("MaxUnauthConnectionsGlobal");
        assert(is_word(Directive::Count(CountSetting::MaxUnauthConnectionsGlobal).name()));
        lemma_value_16();
        lemma_keeps(c, Directive::Count(CountSetting::MaxUnauthConnectionsGlobal), "16"@, base_dir, Some(home));
    }
    assert(kept(home, dir, base_dir, count_line(CountSetting::MaxUnauthConnectionsPerIp, "3"@))) by {
        reveal_strlit("MaxUnauthConnectionsPerIp");
        assert(is_word(Directive::Count(CountSetting::MaxUnauthConnectionsPerIp).name()));
        lemma_value_3();
        lemma_keeps(c, Directive::Count(CountSetting::MaxUnauthConnectionsPerIp), "3"@, base_dir, Some(home));
    }
    assert(kept(home, dir, base_dir, count_line(CountSetting::MaxUnauthConnectionsPerSubnet, "8"@))) by {
        reveal_strlit("MaxUnauthConnectionsPerSubnet");
        assert(is_word(Directive::Count(CountSetting::MaxUnauthConnectionsPerSubnet).name()));
        lemma_value_8();
        lemma_keeps(c, Directive::Count(CountSetting::MaxUnauthConnectionsPerSubnet), "8"@, base_dir, Some(home));
    }
    assert(kept(home, dir, base_dir, count_line(CountSetting::NewConnectionsPerMinutePerIp, "12"@))) by {
        reveal_strlit("NewConnectionsPerMinutePerIp");
        assert(is_word(Directive::Count(CountSetting::NewConnectionsPerMinutePerIp).name()));
        lemma_value_12();
        lemma_keeps(c, Directive::Count(CountSetting::NewConnectionsPerMinutePerIp), "12"@, base_dir, Some(home));
    }
    assert(kept(home, dir, base_dir, count_line(CountSetting::NewConnectionsBurstPerIp, "4"@))) by {
        reveal_strlit("NewConnectionsBurstPerIp");
        assert(is_word(Directive::Count(CountSetting::NewConnectionsBurstPerIp).name()));
        lemma_value_4();
        lemma_keeps(c, Directive::Count(CountSetting::NewConnectionsBurstPerIp), "4"@, base_dir, Some(home));
    }
    assert(kept(home, dir, base_dir, count_line(CountSetting::MaxAuthAttempts, "4"@))) by {
        reveal_strlit("MaxAuthAttempts");
        assert(is_word(Directive::Count(CountSetting::MaxAuthAttempts).name()));
        lemma_value_4();
        lemma_keeps(c, Directive::Count(CountSetting::MaxAuthAttempts), "4"@, base_dir, Some(home));
    }
    assert(kept(home, dir, base_dir, count_line(CountSetting::AuthFailureBanThreshold, "8"@))) by {
        reveal_strlit("AuthFailureBanThreshold");
        assert(is_word(Directive::Count(CountSetting::AuthFailureBanThreshold).name()));
        lemma_value_8();
        lemma_keeps(c, Directive::Count(CountSetting::AuthFailureBanThreshold), "8"@, base_dir, Some(home));
    }
    assert(kept(home, dir, base_dir, count_line(CountSetting::KeepaliveMax, "3"@))) by {
        reveal_strlit("KeepaliveMax");
        assert(is_word(Directive::Count(CountSetting::KeepaliveMax).name()));
        lemma_value_3();
        lemma_keeps(c, Directive::Count(CountSetting::KeepaliveMax), "3"@, base_dir, Some(home));
    }
    assert(kept(home, dir, base_dir, count_line(CountSetting::ChannelBufferSize, "32"@))) by {
        reveal_strlit("ChannelBufferSize");
        assert(is_word(Directive::Count(CountSetting::ChannelBufferSize).name()));
        lemma_value_32();
        lemma_keeps(c, Directive::Count(CountSetting::ChannelBufferSize), "32"@, base_dir, Some(home));
    }
    assert(kept(home, dir, base_dir, count_line(CountSetting::EventBufferSize, "16"@))) by {
        reveal_strlit("EventBufferSize");
        assert(is_word(Directive::Count(CountSetting::EventBufferSize).name()));
        lemma_value_16();
        lemma_keeps(c, Directive::Count(CountSetting::EventBufferSize), "16"@, base_dir, Some(home));
    }
    assert(kept(home, dir, base_dir, count_line(CountSetting::AuthorizedKeysMaxEntries, "128"@))) by {
        reveal_strlit("AuthorizedKeysMaxEntries");
        assert(is_word(Directive::Count(CountSetting::AuthorizedKeysMaxEntries).name()));
        lemma_value_128();
        lemma_keeps(c, Directive::Count(CountSetting::AuthorizedKeysMaxEntries), "128"@, base_dir, Some(home));
    }
}

proof fn lemma_widths_kept(home: Seq<char>, dir: Option<Seq<char>>, base_dir: Seq<char>)
    ensures
        kept(home, dir, base_dir, setting_line(Directive::Port, "2222"@)),
        kept(home, dir, base_dir, width_line(WidthSetting::WindowSize, "1048576"@)),
        kept(home, dir, base_dir, width_line(WidthSetting::MaximumPacketSize, "32768"@)),
{
    let c = config::default_settings(home, dir, Platform::Unix);
    assert(kept(home, dir, base_dir, setting_line(Directive::Port, "2222"@))) by {
        reveal_strlit("Port");
        assert(is_word(Directive::Port.name()));
        lemma_value_2222();
        lemma_keeps(c, Directive::Port, "2222"@, base_dir, Some(home));
    }
    assert(kept(home, dir, base_dir, width_line(WidthSetting::WindowSize, "1048576"@))) by {
        reveal_strlit("WindowSize");
        assert(is_word(Directive::Width(WidthSetting::WindowSize).name()));
        lemma_value_1048576();
        lemma_keeps(c, Directive::Width(WidthSetting::WindowSize), "1048576"@, base_dir, Some(home));
    }
    assert(kept(home, dir, base_dir, width_line(WidthSetting::MaximumPacketSize, "32768"@))) by {
        reveal_strlit("MaximumPacketSize");
        assert(is_word(Directive::Width(WidthSetting::MaximumPacketSize).name()));
        lemma_value_32768();
        lemma_keeps(c, Directive::Width(WidthSetting::MaximumPacketSize), "32768"@, base_dir, Some(home));
    }
}

proof fn lemma_spans_kept(home: Seq<char>, dir: Option<Seq<char>>, base_dir: Seq<char>)
    ensures
        kept(home, dir, base_dir, span_line(SpanSetting::LoginGraceTime, "15s"@)),
        kept(home, dir, base_dir, span_line(SpanSetting::ClientBannerTimeout, "5s"@)),
        kept(home, dir, base_dir, span_line(SpanSetting::KexStartTimeout, "5s"@)),
        kept(home, dir, base_dir, span_line(SpanSetting::AuthRejectionTime, "2s"@)),
        kept(home, dir, base_dir, span_line(SpanSetting::AuthFailureBanWindow, "10m"@)),
        kept(home, dir, base_dir, span_line(SpanSetting::AuthFailureBanDuration, "15m"@)),
        kept(home, dir, base_dir, span_line(SpanSetting::InactivityTimeout, "15m"@)),
        kept(home, dir, base_dir, span_line(SpanSetting::KeepaliveInterval, "30s"@)),
        kept(home, dir, base_dir, span_line(SpanSetting::AuthorizedKeysReloadInterval, "2s"@)),
{
    let c = config::default_settings(home, dir, Platform::Unix);
    assert(kept(home, dir, base_dir, span_line(SpanSetting::LoginGraceTime, "15s"@))) by {
        reveal_strlit("LoginGraceTime");
        assert(is_word(Directive::Span(SpanSetting::LoginGraceTime).name()));
        lemma_value_15s();
        lemma_keeps(c, Directive::Span(SpanSetting::LoginGraceTime), "15s"@, base_dir, Some(home));
    }
    assert(kept(home, dir, base_dir, span_line(SpanSetting::ClientBannerTimeout, "5s"@))) by {
        reveal_strlit("ClientBannerTimeout");
        assert(is_word(Directive::Span(SpanSetting::ClientBannerTimeout).name()));
        lemma_value_5s();
        lemma_keeps(c, Directive::Span(SpanSetting::ClientBannerTimeout), "5s"@, base_dir, Some(home));
    }
    assert(kept(home, dir, base_dir, span_line(SpanSetting::KexStartTimeout, "5s"@))) by {
        reveal_strlit("KexStartTimeout");
        assert(is_word(Directive::Span(SpanSetting::KexStartTimeout).name()));
        lemma_value_5s();
        lemma_keeps(c, Directive::Span(SpanSetting::KexStartTimeout), "5s"@, base_dir, Some(home));
    }
    assert(kept(home, dir, base_dir, span_line(SpanSetting::AuthRejectionTime, "2s"@))) by {
        reveal_strlit("AuthRejectionTime");
        assert(is_word(Directive::Span(SpanSetting::AuthRejectionTime).name()));
        lemma_value_2s();
        lemma_keeps(c, Directive::Span(SpanSetting::AuthRejectionTime), "2s"@, base_dir, Some(home));
    }
    assert(kept(home, dir, base_dir, span_line(SpanSetting::AuthFailureBanWindow, "10m"@))) by {
        reveal_strlit("AuthFailureBanWindow");
        assert(is_word(Directive::Span(SpanSetting::AuthFailureBanWindow).name()));
        lemma_value_10m();
        lemma_keeps(c, Directive::Span(SpanSetting::AuthFailureBanWindow), "10m"@, base_dir, Some(home));
    }
    assert(kept(home, dir, base_dir, span_line(SpanSetting::AuthFailureBanDuration, "15m"@))) by {
        reveal_strlit("AuthFailureBanDuration");
        assert(is_word(Directive::Span(SpanSetting::AuthFailureBanDuration).name()));
        lemma_value_15m();
        lemma_keeps(c, Directive::Span(SpanSetting::AuthFailureBanDuration), "15m"@, base_dir, Some(home));
    }
    assert(kept(home, dir, base_dir, span_line(SpanSetting::InactivityTimeout, "15m"@))) by {
        reveal_strlit("InactivityTimeout");
        assert(is_word(Directive::Span(SpanSetting::InactivityTimeout).name()));
        lemma_value_15m();
        lemma_keeps(c, Directive::Span(SpanSetting::InactivityTimeout), "15m"@, base_dir, Some(home));
    }
    assert(kept(home, dir, base_dir, span_line(SpanSetting::KeepaliveInterval, "30s"@))) by {
        reveal_strlit("KeepaliveInterval");
        assert(is_word(Directive::Span(SpanSetting::KeepaliveInterval).name()));
        lemma_value_30s();
        lemma_keeps(c, Directive::Span(SpanSetting::KeepaliveInterval), "30s"@, base_dir, Some(home));
    }
    assert(kept(home, dir, base_dir, span_line(SpanSetting::AuthorizedKeysReloadInterval, "2s"@))) by {
        reveal_strlit("AuthorizedKeysReloadInterval");
        assert(is_word(Directive::Span(SpanSetting::AuthorizedKeysReloadInterval).name()));
        lemma_value_2s();
        lemma_keeps(c, Directive::Span(SpanSetting::AuthorizedKeysReloadInterval), "2s"@, base_dir, Some(home));
    }
}

proof fn lemma_flags_kept(home: Seq<char>, dir: Option<Seq<char>>, base_dir: Seq<char>)
    ensures
        kept(home, dir, base_dir, flag_line(FlagSetting::PermitTty, "yes"@)),
        kept(home, dir, base_dir, flag_line(FlagSetting::PermitExec, "yes"@)),
        kept(home, dir, base_dir, flag_line(FlagSetting::AllowTcpForwarding, "yes"@)),
        kept(home, dir, base_dir, flag_line(FlagSetting::AllowRemoteForwarding, "yes"@)),
        kept(home, dir, base_dir, flag_line(FlagSetting::GatewayPorts, "yes"@)),
        kept(home, dir, base_dir, flag_line(FlagSetting::NoDelay, "yes"@)),
{
    let c = config::default_settings(home, dir, Platform::Unix);
    assert(kept(home, dir, base_dir, flag_line(FlagSetting::PermitTty, "yes"@))) by {
        reveal_strlit("PermitTTY");
        assert(is_word(Directive::Flag(FlagSetting::PermitTty).name()));
        lemma_value_yes();
        lemma_keeps(c, Directive::Flag(FlagSetting::PermitTty), "yes"@, base_dir, Some(home));
    }
    assert(kept(home, dir, base_dir, flag_line(FlagSetting::PermitExec, "yes"@))) by {
        reveal_strlit("PermitExec");
        assert(is_word(Directive::Flag(FlagSetting::PermitExec).name()));
        lemma_value_yes();
        lemma_keeps(c, Directive::Flag(FlagSetting::PermitExec), "yes"@, base_dir, Some(home));
    }
    assert(kept(home, dir, base_dir, flag_line(FlagSetting::AllowTcpForwarding, "yes"@))) by {
        reveal_strlit("AllowTcpForwarding");
        assert(is_word(Directive::Flag(FlagSetting::AllowTcpForwarding).name()));
        lemma_value_yes();
        lemma_keeps(c, Directive::Flag(FlagSetting::AllowTcpForwarding), "yes"@, base_dir, Some(home));
    }
    assert(kept(home, dir, base_dir, flag_line(FlagSetting::AllowRemoteForwarding, "yes"@))) by {
        reveal_strlit("AllowRemoteForwarding");
        assert(is_word(Directive::Flag(FlagSetting::AllowRemoteForwarding).name()));
        lemma_value_yes();
        lemma_keeps(c, Directive::Flag(FlagSetting::AllowRemoteForwarding), "yes"@, base_dir, Some(home));
    }
    assert(kept(home, dir, base_dir, flag_line(FlagSetting::GatewayPorts, "yes"@))) by {
        reveal_strlit("GatewayPorts");
        assert(is_word(Directive::Flag(FlagSetting::GatewayPorts).name()));
        lemma_value_yes();
        lemma_keeps(c, Directive::Flag(FlagSetting::GatewayPorts), "yes"@, base_dir, Some(home));
    }
    assert(kept(home, dir, base_dir, flag_line(FlagSetting::NoDelay, "yes"@))) by {
        reveal_strlit("NoDelay");
        assert(is_word(Directive::Flag(FlagSetting::NoDelay).name()));
        lemma_value_yes();
        lemma_keeps(c, Directive::Flag(FlagSetting::NoDelay), "yes"@, base_dir, Some(home));
    }
}

proof fn lemma_value_1048576()
    ensures
        is_word("1048576"@),
        values::integer_value("1048576"@, u32::MAX as nat) == Ok::<nat, ValueErrorView>(1048576),
{
    reveal_strlit("1048576");
    reveal_with_fuel(text::digits_value, 8);
}

proof fn lemma_value_10m()
    ensures
        is_word("10m"@),
        values::duration_value("10m"@) == Ok::<Duration, ValueErrorView>(Duration { secs: 600, nanos: 0 }),
{
    reveal_strlit("10m");
    reveal_strlit("10");
    reveal_strlit("m");
    reveal_strlit("");
    reveal_strlit("s");
    reveal_strlit("ms");
    assert("10"@ + "m"@ =~= "10m"@);
    assert(values::integer_value("10"@, u64::MAX as nat) == Ok::<nat, ValueErrorView>(10)) by {
        reveal_with_fuel(text::digits_value, 4);
    }
    assert(text::lowered("m"@) =~= "m"@);
    assert("m"@[0] != "s"@[0]);
    lemma_span("10"@, "m"@, 10);
}

proof fn lemma_value_12()
    ensures
        is_word("12"@),
        values::integer_value("12"@, usize::MAX as nat) == Ok::<nat, ValueErrorView>(12),
{
    reveal_strlit("12");
    reveal_with_fuel(text::digits_value, 3);
}

proof fn lemma_value_128()
    ensures
        is_word("128"@),
        values::integer_value("128"@, usize::MAX as nat) == Ok::<nat, ValueErrorView>(128),
{
    reveal_strlit("128");
    reveal_with_fuel(text::digits_value, 4);
}

proof fn lemma_value_15m()
    ensures
        is_word("15m"@),
        values::duration_value("15m"@) == Ok::<Duration, ValueErrorView>(Duration { secs: 900, nanos: 0 }),
{
    reveal_strlit("15m");
    reveal_strlit("15");
    reveal_strlit("m");
    reveal_strlit("");
    reveal_strlit("s");
    reveal_strlit("ms");
    assert("15"@ + "m"@ =~= "15m"@);
    assert(values::integer_value("15"@, u64::MAX as nat) == Ok::<nat, ValueErrorView>(15)) by {
        reveal_with_fuel(text::digits_value, 4);
    }
    assert(text::lowered("m"@) =~= "m"@);
    assert("m"@[0] != "s"@[0]);
    lemma_span("15"@, "m"@, 15);
}

proof fn lemma_value_15s()
    ensures
        is_word("15s"@),
        values::duration_value("15s"@) == Ok::<Duration, ValueErrorView>(Duration { secs: 15, nanos: 0 }),
{
    reveal_strlit("15s");
    reveal_strlit("15");
    reveal_strlit("s");
    reveal_strlit("");
    reveal_strlit("s");
    reveal_strlit("ms");
    assert("15"@ + "s"@ =~= "15s"@);
    assert(values::integer_value("15"@, u64::MAX as nat) == Ok::<nat, ValueErrorView>(15)) by {
        reveal_with_fuel(text::digits_value, 4);
    }
    assert(text::lowered("s"@) =~= "s"@);
    lemma_span("15"@, "s"@, 15);
}

proof fn lemma_value_16()
    ensures
        is_word("16"@),
        values::integer_value("16"@, usize::MAX as nat) == Ok::<nat, ValueErrorView>(16),
{
    reveal_strlit("16");
    reveal_with_fuel(text::digits_value, 3);
}

proof fn lemma_value_2222()
    ensures
        is_word("2222"@),
        values::integer_value("2222"@, u16::MAX as nat) == Ok::<nat, ValueErrorView>(2222),
{
    reveal_strlit("2222");
    reveal_with_fuel(text::digits_value, 5);
}

proof fn lemma_value_2s()
    ensures
        is_word("2s"@),
        values::duration_value("2s"@) == Ok::<Duration, ValueErrorView>(Duration { secs: 2, nanos: 0 }),
{
    reveal_strlit("2s");
    reveal_strlit("2");
    reveal_strlit("s");
    reveal_strlit("");
    reveal_strlit("s");
    reveal_strlit("ms");
    assert("2"@ + "s"@ =~= "2s"@);
    assert(values::integer_value("2"@, u64::MAX as nat) == Ok::<nat, ValueErrorView>(2)) by {
        reveal_with_fuel(text::digits_value, 4);
    }
    assert(text::lowered("s"@) =~= "s"@);
    lemma_span("2"@, "s"@, 2);
}

proof fn lemma_value_3()
    ensures
        is_word("3"@),
        values::integer_value("3"@, usize::MAX as nat) == Ok::<nat, ValueErrorView>(3),
{
    reveal_strlit("3");
    reveal_with_fuel(text::digits_value, 2);
}

proof fn lemma_value_30s()
    ensures
        is_word("30s"@),
        values::duration_value("30s"@) == Ok::<Duration, ValueErrorView>(Duration { secs: 30, nanos: 0 }),
{
    reveal_strlit("30s");
    reveal_strlit("30");
    reveal_strlit("s");
    reveal_strlit("");
    reveal_strlit("s");
    reveal_strlit("ms");
    assert("30"@ + "s"@ =~= "30s"@);
    assert(values::integer_value("30"@, u64::MAX as nat) == Ok::<nat, ValueErrorView>(30)) by {
        reveal_with_fuel(text::digits_value, 4);
    }
    assert(text::lowered("s"@) =~= "s"@);
    lemma_span("30"@, "s"@, 30);
}

proof fn lemma_value_32()
    ensures
        is_word("32"@),
        values::integer_value("32"@, usize::MAX as nat) == Ok::<nat, ValueErrorView>(32),
{
    reveal_strlit("32");
    reveal_with_fuel(text::digits_value, 3);
}

proof fn lemma_value_32768()
    ensures
        is_word("32768"@),
        values::integer_value("32768"@, u32::MAX as nat) == Ok::<nat, ValueErrorView>(32768),
{
    reveal_strlit("32768");
    reveal_with_fuel(text::digits_value, 6);
}

proof fn lemma_value_4()
    ensures
        is_word("4"@),
        values::integer_value("4"@, usize::MAX as nat) == Ok::<nat, ValueErrorView>(4),
{
    reveal_strlit("4");
    reveal_with_fuel(text::digits_value, 2);
}

proof fn lemma_value_5s()
    ensures
        is_word("5s"@),
        values::duration_value("5s"@) == Ok::<Duration, ValueErrorView>(Duration { secs: 5, nanos: 0 }),
{
    reveal_strlit("5s");
    reveal_strlit("5");
    reveal_strlit("s");
    reveal_strlit("");
    reveal_strlit("s");
    reveal_strlit("ms");
    assert("5"@ + "s"@ =~= "5s"@);
    assert(values::integer_value("5"@, u64::MAX as nat) == Ok::<nat, ValueErrorView>(5)) by {
        reveal_with_fuel(text::digits_value, 4);
    }
    assert(text::lowered("s"@) =~= "s"@);
    lemma_span("5"@, "s"@, 5);
}

proof fn lemma_value_8()
    ensures
        is_word("8"@),
        values::integer_value("8"@, usize::MAX as nat) == Ok::<nat, ValueErrorView>(8),
{
    reveal_strlit("8");
    reveal_with_fuel(text::digits_value, 2);
}

proof fn lemma_value_yes()
    ensures
        is_word("yes"@),
        values::bool_value("yes"@) == Ok::<bool, ValueErrorView>(true),
{
    reveal_strlit("yes");
    lemma_trimmed_word("yes"@);
    assert(text::lowered("yes"@) =~= "yes"@);
}

proof fn lemma_names_kept(home: Seq<char>, dir: Option<Seq<char>>, base_dir: Seq<char>)
    ensures
        kept(home, dir, base_dir, setting_line(Directive::ListenAddress, "0.0.0.0"@)),
        kept(home, dir, base_dir, setting_line(Directive::Shell, "/bin/bash"@)),
        kept(home, dir, base_dir, setting_line(Directive::LogLevel, "info"@)),
        kept(home, dir, base_dir, setting_line(Directive::AuthorizedKeysMaxSize, "256KiB"@)),
{
    let c = config::default_settings(home, dir, Platform::Unix);
    reveal_strlit("ListenAddress");
    reveal_strlit("0.0.0.0");
    assert(is_word("ListenAddress"@) && is_word("0.0.0.0"@));
    lemma_keeps(c, Directive::ListenAddress, "0.0.0.0"@, base_dir, Some(home));
    reveal_strlit("Shell");
    reveal_strlit("/bin/bash");
    assert(is_word("Shell"@) && is_word("/bin/bash"@));
    assert("/bin/bash"@.take(2)[0] == '/');
    lemma_keeps(c, Directive::Shell, "/bin/bash"@, base_dir, Some(home));
    reveal_strlit("LogLevel");
    reveal_strlit("info");
    assert(is_word("LogLevel"@) && is_word("info"@));
    config::law_log_level_reads_back(LogLevel::Info);
    lemma_keeps(c, Directive::LogLevel, "info"@, base_dir, Some(home));
    reveal_strlit("AuthorizedKeysMaxSize");
    reveal_strlit("256KiB");
    reveal_strlit("256");
    reveal_strlit("KiB");
    reveal_strlit("");
    reveal_strlit("b");
    reveal_strlit("k");
    reveal_strlit("kb");
    reveal_strlit("ki");
    reveal_strlit("kib");
    assert(is_word("AuthorizedKeysMaxSize"@) && is_word("256KiB"@));
    lemma_trimmed_word("256KiB"@);
    assert("256"@ + "KiB"@ =~= "256KiB"@);
    lemma_digit_run("256"@, "KiB"@);
    assert("256KiB"@.take(3) =~= "256"@);
    assert("256KiB"@.skip(3) =~= "KiB"@);
    assert(text::lowered("KiB"@) =~= "kib"@);
    reveal_with_fuel(text::digits_value, 4);
    assert(values::integer_value("256"@, usize::MAX as nat) == Ok::<nat, ValueErrorView>(256));
    assert(values::byte_size_value("256KiB"@) == Ok::<usize, ValueErrorView>(262_144));
    lemma_keeps(c, Directive::AuthorizedKeysMaxSize, "256KiB"@, base_dir, Some(home));
}

proof fn lemma_subsystem_kept(home: Seq<char>, dir: Option<Seq<char>>, base_dir: Seq<char>)
    ensures
        kept(home, dir, base_dir, setting_line(Directive::Subsystem, "sftp"@ + seq![' '] + "internal-sftp"@)),
{
    let c = config::default_settings(home, dir, Platform::Unix);
    reveal_strlit("Subsystem");
    reveal_strlit("sftp");
    reveal_strlit("internal-sftp");
    let name = "Subsystem"@;
    let first = "sftp"@;
    let second = "internal-sftp"@;
    assert(is_word(name) && is_word(first) && is_word(second));
    let rest = first + seq![' '] + second;
    let line = setting_line(Directive::Subsystem, rest);
    assert forall|i: int| 0 <= i < line.len() implies (#[trigger] line[i]) != '#' by {
        if i < name.len() {
            assert(line[i] == name[i]);
        } else if i > name.len() {
            assert(line[i] == rest[i - name.len() - 1]);
        }
    }
    lemma_no_comment(line);
    assert(is_word(seq![rest[0]]));
    assert(is_word(seq![second[0]]));
    lemma_first_word(name, rest);
    lemma_first_word(first, second);
    lemma_one_word(second);
    let words = config::line_words(line);
    assert(words =~= seq![name, first, second]);
    assert(words.skip(1) =~= seq![first, second]);
    directive::law_directive_found_by_name(Directive::Subsystem, name);
}

/// The paths that the sample names are the default ones, if the home directory
/// is absolute and configuration is kept under it.
proof fn lemma_paths_kept(home: Seq<char>, dir: Option<Seq<char>>, base_dir: Seq<char>)
    requires
        paths::absolute(home),
        dir matches Some(dir) ==> dir == paths::appended(home, ".config"@),
    ensures
        kept(home, dir, base_dir, path_line(PathSetting::HostKey, "~/.config/narrowd/ssh_host_ed25519_key"@)),
        kept(home, dir, base_dir, path_line(PathSetting::AuthorizedKeysFile, "~/.ssh/authorized_keys"@)),
{
    let c = config::default_settings(home, dir, Platform::Unix);
    reveal_strlit("HostKey");
    reveal_strlit("AuthorizedKeysFile");
    reveal_strlit("~/.config/narrowd/ssh_host_ed25519_key");
    reveal_strlit("~/.ssh/authorized_keys");
    reveal_strlit(".config");
    reveal_strlit("narrowd/ssh_host_ed25519_key");
    reveal_strlit(".ssh/authorized_keys");
    let key = "~/.config/narrowd/ssh_host_ed25519_key"@;
    let file = "~/.ssh/authorized_keys"@;
    assert(is_word("HostKey"@) && is_word("AuthorizedKeysFile"@) && is_word(key) && is_word(file));
    assert(file =~= seq!['~', '/'] + ".ssh/authorized_keys"@);
    assert(native_paths::ordinary(file) && native_paths::ordinary(key));
    lemma_under_home(file, ".ssh/authorized_keys"@, home);
    let tail = ".config"@ + seq!['/'] + "narrowd/ssh_host_ed25519_key"@;
    assert(key =~= seq!['~', '/'] + tail);
    lemma_under_home(key, tail, home);
    assert(c.host_key =~= paths::appended(home, tail));
    lemma_keeps(c, Directive::Path(PathSetting::HostKey), key, base_dir, Some(home));
    lemma_keeps(c, Directive::Path(PathSetting::AuthorizedKeysFile), file, base_dir, Some(home));
}

/// A path behind `~/` is seen from the home directory.
proof fn lemma_under_home(path: Seq<char>, tail: Seq<char>, home: Seq<char>)
    requires
        path == seq!['~', '/'] + tail,
        tail.len() > 0,
        tail[0] != '~',
        tail[0] != '/',
        native_paths::ordinary(path),
    ensures
        config::expanded(native_paths::quoted(path), Some(home), Platform::Unix) == Some(
            paths::appended(home, tail),
        ),
{
    assert(native_paths::ordinary(tail)) by {
        assert forall|i: int| 0 <= i < tail.len() implies !native_paths::stand_in(
            #[trigger] tail[i],
        ) by {
            assert(tail[i] == path[i + 2]);
        }
    }
    assert(path.take(2) =~= seq!['~', '/']);
    assert(path.skip(2) =~= tail);
    assert(tail.len() >= 2 ==> tail.take(2)[0] == tail[0]);
    assert(path.len() > 1);
    assert(config::without_tilde(tail) == tail);
    assert(config::without_tilde(path) == config::without_tilde(path.skip(2)));
}

proof fn lemma_line_kept(
    c: ConfigView,
    lines: Seq<Seq<char>>,
    n: nat,
    base_dir: Seq<char>,
    home: Option<Seq<char>>,
)
    requires
        config::lines_outcome(c, lines, n, base_dir, home) == (c, None::<ConfigErrorView>),
        keeps(c, lines[n as int], base_dir, home),
    ensures
        config::lines_outcome(c, lines, n + 1, base_dir, home) == (c, None::<ConfigErrorView>),
{
    assert(config::line_outcome(c, lines[n as int], n + 1, base_dir, home) == (
        c,
        None::<ConfigErrorView>,
    ));
}

/// The sample configuration file spells out the defaults: to take its settings
/// changes nothing, wherever the file stands, if the home directory is absolute
/// and configuration is kept under it.
pub proof fn law_sample_spells_out_the_defaults(
    home: Seq<char>,
    dir: Option<Seq<char>>,
    base_dir: Seq<char>,
)
    requires
        paths::absolute(home),
        dir matches Some(dir) ==> dir == paths::appended(home, ".config"@),
    ensures
        config::text_outcome(
            config::default_settings(home, dir, Platform::Unix),
            SAMPLE_CONFIG@,
            base_dir,
            Some(home),
        ) == (config::default_settings(home, dir, Platform::Unix), None::<ConfigErrorView>),
{
    let c = config::default_settings(home, dir, Platform::Unix);
    let lines = text::split_at_char(SAMPLE_CONFIG@, '\n');
    lemma_sample_lines();
    lemma_counts_kept(home, dir, base_dir);
    lemma_widths_kept(home, dir, base_dir);
    lemma_spans_kept(home, dir, base_dir);
    lemma_flags_kept(home, dir, base_dir);
    lemma_names_kept(home, dir, base_dir);
    lemma_subsystem_kept(home, dir, base_dir);
    lemma_paths_kept(home, dir, base_dir);
    reveal_strlit("# narrowd sample config");
    lemma_comment_keeps(c, "# narrowd sample config"@, base_dir, Some(home));
    reveal_strlit("# single-user SSH daemon");
    lemma_comment_keeps(c, "# single-user SSH daemon"@, base_dir, Some(home));
    reveal_strlit("");
    lemma_comment_keeps(c, ""@, base_dir, Some(home));
    reveal_strlit("# Public exposure hardening defaults");
    lemma_comment_keeps(c, "# Public exposure hardening defaults"@, base_dir, Some(home));
    lemma_line_kept(c, lines, 0, base_dir, Some(home));
    lemma_line_kept(c, lines, 1, base_dir, Some(home));
    lemma_line_kept(c, lines, 2, base_dir, Some(home));
    lemma_line_kept(c, lines, 3, base_dir, Some(home));
    lemma_line_kept(c, lines, 4, base_dir, Some(home));
    lemma_line_kept(c, lines, 5, base_dir, Some(home));
    lemma_line_kept(c, lines, 6, base_dir, Some(home));
    lemma_line_kept(c, lines, 7, base_dir, Some(home));
    lemma_line_kept(c, lines, 8, base_dir, Some(home));
    lemma_line_kept(c, lines, 9, base_dir, Some(home));
    lemma_line_kept(c, lines, 10, base_dir, Some(home));
    lemma_line_kept(c, lines, 11, base_dir, Some(home));
    lemma_line_kept(c, lines, 12, base_dir, Some(home));
    lemma_line_kept(c, lines, 13, base_dir, Some(home));
    lemma_line_kept(c, lines, 14, base_dir, Some(home));
    lemma_line_kept(c, lines, 15, base_dir, Some(home));
    lemma_line_kept(c, lines, 16, base_dir, Some(home));
    lemma_line_kept(c, lines, 17, base_dir, Some(home));
    lemma_line_kept(c, lines, 18, base_dir, Some(home));
    lemma_line_kept(c, lines, 19, base_dir, Some(home));
    lemma_line_kept(c, lines, 20, base_dir, Some(home));
    lemma_line_kept(c, lines, 21, base_dir, Some(home));
    lemma_line_kept(c, lines, 22, base_dir, Some(home));
    lemma_line_kept(c, lines, 23, base_dir, Some(home));
    lemma_line_kept(c, lines, 24, base_dir, Some(home));
    lemma_line_kept(c, lines, 25, base_dir, Some(home));
    lemma_line_kept(c, lines, 26, base_dir, Some(home));
    lemma_line_kept(c, lines, 27, base_dir, Some(home));
    lemma_line_kept(c, lines, 28, base_dir, Some(home));
    lemma_line_kept(c, lines, 29, base_dir, Some(home));
    lemma_line_kept(c, lines, 30, base_dir, Some(home));
    lemma_line_kept(c, lines, 31, base_dir, Some(home));
    lemma_line_kept(c, lines, 32, base_dir, Some(home));
    lemma_line_kept(c, lines, 33, base_dir, Some(home));
    lemma_line_kept(c, lines, 34, base_dir, Some(home));
    lemma_line_kept(c, lines, 35, base_dir, Some(home));
    lemma_line_kept(c, lines, 36, base_dir, Some(home));
    lemma_line_kept(c, lines, 37, base_dir, Some(home));
    lemma_line_kept(c, lines, 38, base_dir, Some(home));
    lemma_line_kept(c, lines, 39, base_dir, Some(home));
    lemma_line_kept(c, lines, 40, base_dir, Some(home));
    lemma_line_kept(c, lines, 41, base_dir, Some(home));
    lemma_line_kept(c, lines, 42, base_dir, Some(home));
    lemma_line_kept(c, lines, 43, base_dir, Some(home));
    lemma_line_kept(c, lines, 44, base_dir, Some(home));
}

} // verus!

//! The server configuration, its files, and the EULA gate in front of
//! everything else.

use vstd::prelude::*;
use vstd::slice::slice_subrange;
use vstd::string::StringExecFns;
use crate::number::{decimal, law_numerals_read_back, lemma_decimal_reads_back, lemma_numerals_parse, lemma_signed_decimal_chars, parse_i32, parse_signed_spec, parse_unsigned, parse_unsigned_spec, push_decimal, push_signed_decimal, signed_decimal};
use crate::text::{ascii_lower_all, chars_of, drop_prefix, find_char, has_prefix, is_blank, is_space, is_text, is_text_ignoring_case, law_trimming_removes_blanks_only, lemma_find_char, lemma_first_line, lemma_trim_ends, lemma_trimmed, lines, position_of, same_ignoring_case, split_lines, starts_with_text, string_of, texts, trim, trim_chars, without_prefix};

verus! {

#[derive(Clone, Debug)]
pub struct ServerConfig {
    pub max_players: u32,
    pub server_ip: String,
    pub server_port: u16,
    pub target_protocol: i32,
    pub view_distance: i32,
    pub motd: String,
}

/// A configuration with its texts as character sequences.
#[verifier::ext_equal]
pub struct ConfigText {
    pub max_players: u32,
    pub server_ip: Seq<char>,
    pub server_port: u16,
    pub target_protocol: i32,
    pub view_distance: i32,
    pub motd: Seq<char>,
}

impl View for ServerConfig {
    type V = ConfigText;

    open spec fn view(&self) -> ConfigText {
        ConfigText {
            max_players: self.max_players,
            server_ip: self.server_ip@,
            server_port: self.server_port,
            target_protocol: self.target_protocol,
            view_distance: self.view_distance,
            motd: self.motd@,
        }
    }
}

pub open spec fn default_config() -> ConfigText {
    ConfigText {
        max_players: 1000,
        server_ip: "0.0.0.0"@,
        server_port: 25565,
        target_protocol: 776,
        view_distance: 16,
        motd: "Welcome to Kraken!"@,
    }
}

impl Default for ServerConfig {
    fn default() -> (c: Self)
        ensures
            c@ == default_config(),
    {
        ServerConfig {
            max_players: 1000,
            server_ip: "0.0.0.0".to_owned(),
            server_port: 25565,
            target_protocol: 776,
            view_distance: 16,
            motd: "Welcome to Kraken!".to_owned(),
        }
    }
}

/// Whether a line is neither empty nor a comment.
pub open spec fn is_setting(line: Seq<char>) -> bool {
    line.len() > 0 && line[0] != '#'
}

/// Whether the lines accept the EULA: the last `eula=` setting decides.
pub open spec fn eula_agreed(ls: Seq<Seq<char>>) -> bool
    decreases ls.len(),
{
    if ls.len() == 0 {
        false
    } else {
        let line = ls.last();
        if is_setting(line) && has_prefix(line, "eula="@) {
            same_ignoring_case(trim(without_prefix(line, "eula="@)), "true"@)
        } else {
            eula_agreed(ls.drop_last())
        }
    }
}

pub fn eula_accepted(contents: &str) -> (r: bool)
    ensures
        r == eula_agreed(lines(contents@)),
{
    let text = chars_of(contents);
    let all = split_lines(text.as_slice());
    let mut accepted = false;
    let mut i: usize = 0;
    while i < all.len()
        invariant
            i <= all.len(),
            texts(all@) == lines(contents@),
            accepted == eula_agreed(texts(all@).take(i as int)),
        decreases all.len() - i,
    {
        let line = all[i].as_slice();
        proof {
            assert(texts(all@).take(i + 1).drop_last() =~= texts(all@).take(i as int));
            assert(texts(all@).take(i + 1).last() == line@);
        }
        if line.len() > 0 && line[0] != '#' && starts_with_text(line, "eula=") {
            let value = trim_chars(drop_prefix(line, "eula="));
            accepted = is_text_ignoring_case(value, "true");
        }
        i += 1;
    }
    assert(texts(all@).take(i as int) =~= texts(all@));
    accepted
}

pub open spec fn clamp_view_distance(v: int) -> i32 {
    if v < 2 {
        2
    } else if v > 32 {
        32
    } else {
        v as i32
    }
}

/// The configuration after one more line of the properties file. A line sets a
/// key to what stands behind the first equals sign, both without surrounding
/// whitespace. A number that cannot be read sets the default.
pub open spec fn property_applied(c: ConfigText, line: Seq<char>) -> ConfigText {
    let at = find_char(line, '=') as int;
    if !is_setting(line) || at >= line.len() {
        c
    } else {
        let key = trim(line.take(at));
        let value = trim(line.skip(at + 1));
        if key == "server-ip"@ {
            ConfigText { server_ip: value, ..c }
        } else if key == "server-port"@ {
            ConfigText {
                server_port: match parse_unsigned_spec(value, u16::MAX as nat) {
                    Some(port) => port as u16,
                    None => 25565,
                },
                ..c
            }
        } else if key == "target-protocol"@ {
            ConfigText {
                target_protocol: match parse_signed_spec(value, i32::MIN as int, i32::MAX as int) {
                    Some(protocol) => protocol as i32,
                    None => 776,
                },
                ..c
            }
        } else if key == "max-players"@ {
            ConfigText {
                max_players: match parse_unsigned_spec(value, u32::MAX as nat) {
                    Some(players) => players as u32,
                    None => 1000,
                },
                ..c
            }
        } else if key == "view-distance"@ {
            ConfigText {
                view_distance: match parse_signed_spec(value, i32::MIN as int, i32::MAX as int) {
                    Some(distance) => clamp_view_distance(distance),
                    None => 16,
                },
                ..c
            }
        } else if key == "motd"@ {
            ConfigText { motd: value, ..c }
        } else {
            c
        }
    }
}

/// The configuration that a properties file sets, starting from the defaults.
pub open spec fn config_of(ls: Seq<Seq<char>>) -> ConfigText
    decreases ls.len(),
{
    if ls.len() == 0 {
        default_config()
    } else {
        property_applied(config_of(ls.drop_last()), ls.last())
    }
}

fn apply_property(config: &mut ServerConfig, line: &[char])
    ensures
        final(config)@ == property_applied(old(config)@, line@),
{
    if line.len() == 0 || line[0] == '#' {
        return ;
    }
    let at: usize = position_of(line, '=');
    if at >= line.len() {
        return ;
    }
    let head = slice_subrange(line, 0, at);
    let tail = slice_subrange(line, at + 1, line.len());
    assert(head@ =~= line@.take(at as int));
    assert(tail@ =~= line@.skip(at + 1));
    let key = trim_chars(head);
    let value = trim_chars(tail);
    if is_text(key, "server-ip") {
        config.server_ip = string_of(value);
    } else if is_text(key, "server-port") {
        config.server_port =
        match parse_unsigned(value, 65535) {
            Some(port) => port as u16,
            None => 25565,
        };
    } else if is_text(key, "target-protocol") {
        config.target_protocol =
        match parse_i32(value) {
            Some(protocol) => protocol,
            None => 776,
        };
    } else if is_text(key, "max-players") {
        config.max_players =
        match parse_unsigned(value, u32::MAX) {
            Some(players) => players,
            None => 1000,
        };
    } else if is_text(key, "view-distance") {
        config.view_distance =
        match parse_i32(value) {
            Some(distance) => if distance < 2 {
                2
            } else if distance > 32 {
                32
            } else {
                distance
            },
            None => 16,
        };
    } else if is_text(key, "motd") {
        config.motd = string_of(value);
    }
}

pub fn parse_properties(contents: &str) -> (config: ServerConfig)
    ensures
        config@ == config_of(lines(contents@)),
        2 <= config.view_distance <= 32,
{
    let text = chars_of(contents);
    let all = split_lines(text.as_slice());
    let mut config = ServerConfig::default();
    let mut i: usize = 0;
    while i < all.len()
        invariant
            i <= all.len(),
            texts(all@) == lines(contents@),
            config@ == config_of(texts(all@).take(i as int)),
            2 <= config.view_distance <= 32,
        decreases all.len() - i,
    {
        proof {
            assert(texts(all@).take(i + 1).drop_last() =~= texts(all@).take(i as int));
            assert(texts(all@).take(i + 1).last() == all@[i as int]@);
        }
        apply_property(&mut config, all[i].as_slice());
        i += 1;
    }
    assert(texts(all@).take(i as int) =~= texts(all@));
    config
}

pub open spec fn eula_comment() -> Seq<char> {
    "# By changing the setting below to TRUE you are indicating your agreement to our EULA (https://account.mojang.com/documents/minecraft_eula)."@
}

/// The file that is created where there is no `eula.txt` yet.
pub open spec fn default_eula_text() -> Seq<char> {
    eula_comment() + "\n"@ + "eula=false"@ + "\n"@
}

pub fn default_eula() -> (s: String)
    ensures
        s@ == default_eula_text(),
{
    let mut s =
        "# By changing the setting below to TRUE you are indicating your agreement to our EULA (https://account.mojang.com/documents/minecraft_eula).".to_owned();
    s.append("\n");
    s.append("eula=false");
    s.append("\n");
    s
}

/// The comment lines at the top of a properties file.
pub open spec fn properties_header() -> Seq<char> {
    "# Kraken Server Properties\n"@ + "# Protocol Versions map:\n"@ + "# 763 = 1.20.1\n"@
        + "# 764 = 1.20.2\n"@ + "# 765 = 1.20.3\n"@ + "# 766 = 1.20.4\n"@
        + "# 767 = 1.20.5 / 1.20.6\n"@ + "# 776 = 1.21.11\n"@
}

/// A properties file that states the configuration.
pub open spec fn properties_text(c: ConfigText) -> Seq<char> {
    properties_header() + "server-ip="@ + c.server_ip + "\n"@ + "server-port="@ + decimal(
        c.server_port as nat,
    ) + "\n"@ + "target-protocol="@ + signed_decimal(c.target_protocol as int) + "\n"@
        + "max-players="@ + decimal(c.max_players as nat) + "\n"@ + "view-distance="@
        + signed_decimal(c.view_distance as int) + "\n"@ + "motd="@ + c.motd + "\n"@
}

pub fn properties_file(config: &ServerConfig) -> (s: String)
    ensures
        s@ == properties_text(config@),
{
    let mut s = "# Kraken Server Properties\n".to_owned();
    s.append("# Protocol Versions map:\n");
    s.append("# 763 = 1.20.1\n");
    s.append("# 764 = 1.20.2\n");
    s.append("# 765 = 1.20.3\n");
    s.append("# 766 = 1.20.4\n");
    s.append("# 767 = 1.20.5 / 1.20.6\n");
    s.append("# 776 = 1.21.11\n");
    s.append("server-ip=");
    s.append(config.server_ip.as_str());
    s.append("\n");
    s.append("server-port=");
    push_decimal(&mut s, config.server_port as u64);
    s.append("\n");
    s.append("target-protocol=");
    push_signed_decimal(&mut s, config.target_protocol as i64);
    s.append("\n");
    s.append("max-players=");
    push_decimal(&mut s, config.max_players as u64);
    s.append("\n");
    s.append("view-distance=");
    push_signed_decimal(&mut s, config.view_distance as i64);
    s.append("\n");
    s.append("motd=");
    s.append(config.motd.as_str());
    s.append("\n");
    s
}

/// What the EULA gate decides: halt, or run with a configuration. Either way
/// files that are missing may have to be created first.
#[derive(Debug)]
pub enum Gate {
    Halt { create_eula: bool, create_properties: bool },
    Run { config: ServerConfig, create_properties: bool },
}

/// Decides whether the server may start. `eula` and `properties` are the
/// contents of the two files, where they exist.
pub fn enforce_eula_gate(eula: Option<&str>, properties: Option<&str>) -> (gate: Gate)
    ensures
        eula is None ==> gate == (Gate::Halt {
            create_eula: true,
            create_properties: properties is None,
        }),
        eula matches Some(text) && !eula_agreed(lines(text@)) ==> gate == (Gate::Halt {
            create_eula: false,
            create_properties: false,
        }),
        eula matches Some(text) && eula_agreed(lines(text@)) ==> (gate matches Gate::Run {
            config,
            create_properties,
        } && create_properties == (properties is None) && config@ == (match properties {
            Some(p) => config_of(lines(p@)),
            None => default_config(),
        }) && 2 <= config.view_distance <= 32),
{
    let text = match eula {
        None => return Gate::Halt { create_eula: true, create_properties: properties.is_none() },
        Some(text) => text,
    };
    if !eula_accepted(text) {
        return Gate::Halt { create_eula: false, create_properties: false };
    }
    match properties {
        Some(p) => Gate::Run { config: parse_properties(p), create_properties: false },
        None => Gate::Run { config: ServerConfig::default(), create_properties: true },
    }
}

/// The file line that sets a key to a value.
pub open spec fn setting_line(key: Seq<char>, value: Seq<char>) -> Seq<char> {
    key + seq!['='] + value
}

/// A line that sets a key to a value is read as such.
proof fn lemma_setting_line(key: Seq<char>, value: Seq<char>)
    requires
        key.len() > 0 && key[0] != '#' && !is_space(key[0]) && !is_space(key.last()),
        forall|i: int| 0 <= i < key.len() ==> key[i] != '=',
        trim(value) == value,
    ensures
        is_setting(setting_line(key, value)),
        find_char(setting_line(key, value), '=') == key.len(),
        trim(setting_line(key, value).take(key.len() as int)) == key,
        trim(setting_line(key, value).skip(key.len() as int + 1)) == value,
        setting_line(key, value).last() != '\r',
{
    let line = setting_line(key, value);
    let n = find_char(line, '=') as int;
    lemma_find_char(line, '=');
    assert(line[0] == key[0]);
    assert(line[key.len() as int] == '=');
    if n < key.len() {
        assert(line[n] == key[n]);
    }
    assert(line.take(key.len() as int) =~= key);
    assert(line.skip(key.len() as int + 1) =~= value);
    lemma_trimmed(key);
    lemma_trim_ends(value);
    if value.len() > 0 {
        assert(line.last() == value.last());
    }
}

proof fn lemma_next_line(ls: Seq<Seq<char>>, line: Seq<char>)
    ensures
        config_of(ls.push(line)) == property_applied(config_of(ls), line),
        eula_agreed(ls.push(line)) == (if is_setting(line) && has_prefix(line, "eula="@) {
            same_ignoring_case(trim(without_prefix(line, "eula="@)), "true"@)
        } else {
            eula_agreed(ls)
        }),
{
    assert(ls.push(line).drop_last() =~= ls);
}

/// What `text` says about the configuration behind the lines `before`.
spec fn read_behind(before: Seq<Seq<char>>, text: Seq<char>) -> ConfigText {
    config_of(before + lines(text))
}

/// A comment line says nothing.
proof fn lemma_skip_comment(before: Seq<Seq<char>>, comment: Seq<char>, rest: Seq<char>)
    requires
        comment.len() > 1 && comment[0] == '#' && comment.last() == '\n',
        comment[comment.len() - 2] != '\r',
        forall|i: int| 0 <= i < comment.len() - 1 ==> comment[i] != '\n',
    ensures
        read_behind(before, comment + rest) == read_behind(before.push(comment.drop_last()), rest),
        config_of(before.push(comment.drop_last())) == config_of(before),
{
    let line = comment.drop_last();
    assert(comment + rest =~= line + seq!['\n'] + rest);
    lemma_first_line(line, rest);
    assert(before + lines(comment + rest) =~= before.push(line) + lines(rest));
    lemma_next_line(before, line);
}

/// A line that sets a key is read before the rest.
proof fn lemma_read_setting(
    before: Seq<Seq<char>>,
    key: Seq<char>,
    value: Seq<char>,
    rest: Seq<char>,
)
    requires
        key.len() > 0 && key[0] != '#' && !is_space(key[0]) && !is_space(key.last()),
        forall|i: int| 0 <= i < key.len() ==> key[i] != '=' && key[i] != '\n',
        forall|i: int| 0 <= i < value.len() ==> value[i] != '\n',
        trim(value) == value,
    ensures
        read_behind(before, setting_line(key, value) + seq!['\n'] + rest) == read_behind(
            before.push(setting_line(key, value)),
            rest,
        ),
        config_of(before.push(setting_line(key, value))) == property_applied(
            config_of(before),
            setting_line(key, value),
        ),
{
    let line = setting_line(key, value);
    lemma_setting_line(key, value);
    assert forall|i: int| 0 <= i < line.len() implies line[i] != '\n' by {
        if i < key.len() {
            assert(line[i] == key[i]);
        } else if i > key.len() {
            assert(line[i] == value[i - key.len() - 1]);
        }
    }
    lemma_first_line(line, rest);
    assert(before + lines(line + seq!['\n'] + rest) =~= before.push(line) + lines(rest));
    lemma_next_line(before, line);
}

proof fn lemma_header_is_skipped(rest: Seq<char>)
    ensures
        exists|before: Seq<Seq<char>>|
            #![trigger config_of(before)]
            config_of(before) == default_config() && read_behind(
                Seq::empty(),
                properties_header() + rest,
            ) == read_behind(before, rest),
{
    reveal_strlit("# Kraken Server Properties\n");
    reveal_strlit("# Protocol Versions map:\n");
    reveal_strlit("# 763 = 1.20.1\n");
    reveal_strlit("# 764 = 1.20.2\n");
    reveal_strlit("# 765 = 1.20.3\n");
    reveal_strlit("# 766 = 1.20.4\n");
    reveal_strlit("# 767 = 1.20.5 / 1.20.6\n");
    reveal_strlit("# 776 = 1.21.11\n");
    let (h1, h2, h3, h4) = (
        "# Kraken Server Properties\n"@,
        "# Protocol Versions map:\n"@,
        "# 763 = 1.20.1\n"@,
        "# 764 = 1.20.2\n"@,
    );
    let (h5, h6, h7, h8) = (
        "# 765 = 1.20.3\n"@,
        "# 766 = 1.20.4\n"@,
        "# 767 = 1.20.5 / 1.20.6\n"@,
        "# 776 = 1.21.11\n"@,
    );
    let r8 = h8 + rest;
    let r7 = h7 + r8;
    let r6 = h6 + r7;
    let r5 = h5 + r6;
    let r4 = h4 + r5;
    let r3 = h3 + r4;
    let r2 = h2 + r3;
    assert(properties_header() + rest =~= h1 + r2);
    let b0 = Seq::<Seq<char>>::empty();
    let b1 = b0.push(h1.drop_last());
    let b2 = b1.push(h2.drop_last());
    let b3 = b2.push(h3.drop_last());
    let b4 = b3.push(h4.drop_last());
    let b5 = b4.push(h5.drop_last());
    let b6 = b5.push(h6.drop_last());
    let b7 = b6.push(h7.drop_last());
    let b8 = b7.push(h8.drop_last());
    lemma_skip_comment(b0, h1, r2);
    lemma_skip_comment(b1, h2, r3);
    lemma_skip_comment(b2, h3, r4);
    lemma_skip_comment(b3, h4, r5);
    lemma_skip_comment(b4, h5, r6);
    lemma_skip_comment(b5, h6, r7);
    lemma_skip_comment(b6, h7, r8);
    lemma_skip_comment(b7, h8, rest);
    assert(config_of(b8) == default_config());
}

/// The settings behind the comments, line by line.
spec fn settings_lines(c: ConfigText) -> Seq<Seq<char>> {
    seq![
        setting_line("server-ip"@, c.server_ip),
        setting_line("server-port"@, decimal(c.server_port as nat)),
        setting_line("target-protocol"@, signed_decimal(c.target_protocol as int)),
        setting_line("max-players"@, decimal(c.max_players as nat)),
        setting_line("view-distance"@, signed_decimal(c.view_distance as int)),
        setting_line("motd"@, c.motd),
    ]
}

/// Lines with a line feed behind each, and a rest.
spec fn ended(line: Seq<char>, rest: Seq<char>) -> Seq<char> {
    line + seq!['\n'] + rest
}

spec fn lines_from(c: ConfigText, k: int) -> Seq<char>
    decreases 6 - k,
{
    if k < 0 || k >= 6 {
        Seq::empty()
    } else {
        ended(settings_lines(c)[k], lines_from(c, k + 1))
    }
}

proof fn lemma_settings_text(c: ConfigText)
    ensures
        properties_text(c) == properties_header() + lines_from(c, 0),
{
    reveal_strlit("\n");
    reveal_strlit("server-ip=");
    reveal_strlit("server-port=");
    reveal_strlit("target-protocol=");
    reveal_strlit("max-players=");
    reveal_strlit("view-distance=");
    reveal_strlit("motd=");
    reveal_strlit("server-ip");
    reveal_strlit("server-port");
    reveal_strlit("target-protocol");
    reveal_strlit("max-players");
    reveal_strlit("view-distance");
    reveal_strlit("motd");
    let ls = settings_lines(c);
    assert("\n"@ =~= seq!['\n']);
    assert("server-ip="@ + c.server_ip =~= ls[0]);
    assert("server-port="@ + decimal(c.server_port as nat) =~= ls[1]);
    assert("target-protocol="@ + signed_decimal(c.target_protocol as int) =~= ls[2]);
    assert("max-players="@ + decimal(c.max_players as nat) =~= ls[3]);
    assert("view-distance="@ + signed_decimal(c.view_distance as int) =~= ls[4]);
    assert("motd="@ + c.motd =~= ls[5]);
    let p0 = properties_header();
    let p1 = p0 + "server-ip="@ + c.server_ip + "\n"@;
    let p2 = p1 + "server-port="@ + decimal(c.server_port as nat) + "\n"@;
    let p3 = p2 + "target-protocol="@ + signed_decimal(c.target_protocol as int) + "\n"@;
    let p4 = p3 + "max-players="@ + decimal(c.max_players as nat) + "\n"@;
    let p5 = p4 + "view-distance="@ + signed_decimal(c.view_distance as int) + "\n"@;
    let p6 = p5 + "motd="@ + c.motd + "\n"@;
    assert(p6 == properties_text(c));
    lemma_line_moves(p0, "server-ip="@, c.server_ip, ls[0], lines_from(c, 1));
    lemma_line_moves(p1, "server-port="@, decimal(c.server_port as nat), ls[1], lines_from(c, 2));
    lemma_line_moves(
        p2,
        "target-protocol="@,
        signed_decimal(c.target_protocol as int),
        ls[2],
        lines_from(c, 3),
    );
    lemma_line_moves(p3, "max-players="@, decimal(c.max_players as nat), ls[3], lines_from(c, 4));
    lemma_line_moves(
        p4,
        "view-distance="@,
        signed_decimal(c.view_distance as int),
        ls[4],
        lines_from(c, 5),
    );
    lemma_line_moves(p5, "motd="@, c.motd, ls[5], lines_from(c, 6));
    assert(p6 + lines_from(c, 6) =~= p6);
}

/// A line may be counted to what is in front of the rest, or to the rest.
proof fn lemma_line_moves(
    front: Seq<char>,
    key: Seq<char>,
    value: Seq<char>,
    line: Seq<char>,
    rest: Seq<char>,
)
    requires
        key + value == line,
    ensures
        front + key + value + seq!['\n'] + rest == front + ended(line, rest),
{
    assert(front + key + value + seq!['\n'] + rest =~= front + ((key + value) + seq!['\n'] + rest));
}

/// What the setting of a number makes of a configuration, and that its line can
/// be read.
proof fn lemma_setting_applies(c: ConfigText, d: ConfigText, k: int)
    requires
        0 <= k < 6,
        2 <= c.view_distance <= 32,
        trim(c.server_ip) == c.server_ip,
        trim(c.motd) == c.motd,
        forall|i: int| 0 <= i < c.server_ip.len() ==> c.server_ip[i] != '\n',
        forall|i: int| 0 <= i < c.motd.len() ==> c.motd[i] != '\n',
    ensures
        property_applied(d, settings_lines(c)[k]) == with_setting(c, d, k),
        exists|key: Seq<char>, value: Seq<char>|
            #![trigger setting_line(key, value)]
            readable(key, value) && settings_lines(c)[k] == setting_line(key, value),
{
    if k == 0 {
        reveal_strlit("server-ip");
        lemma_setting_line("server-ip"@, c.server_ip);
        assert(readable("server-ip"@, c.server_ip));
    } else if k == 1 {
        reveal_strlit("server-ip");
        reveal_strlit("server-port");
        let value = decimal(c.server_port as nat);
        lemma_numerals_parse(c.server_port as nat, 0, u16::MAX as nat, 0, 0);
        lemma_decimal_reads_back(c.server_port as nat);
        lemma_trimmed(value);
        lemma_setting_line("server-port"@, value);
        assert(readable("server-port"@, value));
    } else if k == 2 {
        reveal_strlit("server-ip");
        reveal_strlit("server-port");
        reveal_strlit("target-protocol");
        let value = signed_decimal(c.target_protocol as int);
        lemma_numerals_parse(0, c.target_protocol as int, 0, i32::MIN as int, i32::MAX as int);
        lemma_signed_decimal_chars(c.target_protocol as int);
        lemma_trimmed(value);
        lemma_setting_line("target-protocol"@, value);
        assert(readable("target-protocol"@, value));
    } else if k == 3 {
        reveal_strlit("server-ip");
        reveal_strlit("server-port");
        reveal_strlit("target-protocol");
        reveal_strlit("max-players");
        let value = decimal(c.max_players as nat);
        lemma_numerals_parse(c.max_players as nat, 0, u32::MAX as nat, 0, 0);
        lemma_decimal_reads_back(c.max_players as nat);
        lemma_trimmed(value);
        lemma_setting_line("max-players"@, value);
        assert(readable("max-players"@, value));
        assert("server-port"@[0] != "max-players"@[0]);
    } else if k == 4 {
        reveal_strlit("server-ip");
        reveal_strlit("server-port");
        reveal_strlit("target-protocol");
        reveal_strlit("max-players");
        reveal_strlit("view-distance");
        let value = signed_decimal(c.view_distance as int);
        lemma_numerals_parse(0, c.view_distance as int, 0, i32::MIN as int, i32::MAX as int);
        lemma_signed_decimal_chars(c.view_distance as int);
        lemma_trimmed(value);
        lemma_setting_line("view-distance"@, value);
        assert(readable("view-distance"@, value));
    } else {
        reveal_strlit("server-ip");
        reveal_strlit("server-port");
        reveal_strlit("target-protocol");
        reveal_strlit("max-players");
        reveal_strlit("view-distance");
        reveal_strlit("motd");
        lemma_setting_line("motd"@, c.motd);
        assert(readable("motd"@, c.motd));
    }
}

/// Whether a key and a value can stand in a line.
spec fn readable(key: Seq<char>, value: Seq<char>) -> bool {
    &&& key.len() > 0 && key[0] != '#' && !is_space(key[0]) && !is_space(key.last())
    &&& forall|i: int| 0 <= i < key.len() ==> key[i] != '=' && key[i] != '\n'
    &&& forall|i: int| 0 <= i < value.len() ==> value[i] != '\n'
    &&& trim(value) == value
}

/// `d` with the setting of a number as in `c`.
spec fn with_setting(c: ConfigText, d: ConfigText, k: int) -> ConfigText {
    if k == 0 {
        ConfigText { server_ip: c.server_ip, ..d }
    } else if k == 1 {
        ConfigText { server_port: c.server_port, ..d }
    } else if k == 2 {
        ConfigText { target_protocol: c.target_protocol, ..d }
    } else if k == 3 {
        ConfigText { max_players: c.max_players, ..d }
    } else if k == 4 {
        ConfigText { view_distance: c.view_distance, ..d }
    } else {
        ConfigText { motd: c.motd, ..d }
    }
}

/// `d` with the settings from a number on as in `c`.
spec fn with_settings(c: ConfigText, d: ConfigText, k: int) -> ConfigText
    decreases 6 - k,
{
    if k < 0 || k >= 6 {
        d
    } else {
        with_settings(c, with_setting(c, d, k), k + 1)
    }
}

proof fn lemma_settings_read(c: ConfigText, before: Seq<Seq<char>>, k: int)
    requires
        0 <= k <= 6,
        2 <= c.view_distance <= 32,
        trim(c.server_ip) == c.server_ip,
        trim(c.motd) == c.motd,
        forall|i: int| 0 <= i < c.server_ip.len() ==> c.server_ip[i] != '\n',
        forall|i: int| 0 <= i < c.motd.len() ==> c.motd[i] != '\n',
    ensures
        read_behind(before, lines_from(c, k)) == with_settings(c, config_of(before), k),
    decreases 6 - k,
{
    if k < 6 {
        let line = settings_lines(c)[k];
        lemma_setting_applies(c, config_of(before), k);
        let (key, value) = choose|key: Seq<char>, value: Seq<char>|
            #![trigger setting_line(key, value)]
            readable(key, value) && line == setting_line(key, value);
        lemma_read_setting(before, key, value, lines_from(c, k + 1));
        lemma_settings_read(c, before.push(line), k + 1);
    } else {
        assert(before + lines(Seq::<char>::empty()) =~= before);
    }
}

/// A properties file that states a configuration is read as that configuration.
/// The texts must have no whitespace at their ends and no line feeds, and the
/// view distance must be one that a file can set.
pub proof fn law_properties_read_back(c: ConfigText)
    requires
        2 <= c.view_distance <= 32,
        trim(c.server_ip) == c.server_ip,
        trim(c.motd) == c.motd,
        forall|i: int| 0 <= i < c.server_ip.len() ==> c.server_ip[i] != '\n',
        forall|i: int| 0 <= i < c.motd.len() ==> c.motd[i] != '\n',
    ensures
        config_of(lines(properties_text(c))) == c,
{
    let text = lines_from(c, 0);
    lemma_settings_text(c);
    lemma_header_is_skipped(text);
    let before = choose|before: Seq<Seq<char>>|
        #![trigger config_of(before)]
        config_of(before) == default_config() && read_behind(
            Seq::empty(),
            properties_header() + text,
        ) == read_behind(before, text);
    lemma_settings_read(c, before, 0);
    assert(Seq::<Seq<char>>::empty() + lines(properties_text(c)) =~= lines(properties_text(c)));
    reveal_with_fuel(with_settings, 7);
}

/// The files that a first start creates: the properties read back as the
/// defaults, and the EULA is not accepted yet.
pub proof fn law_created_files()
    ensures
        config_of(lines(properties_text(default_config()))) == default_config(),
        !eula_agreed(lines(default_eula_text())),
{
    reveal_strlit("0.0.0.0");
    reveal_strlit("Welcome to Kraken!");
    lemma_trimmed("0.0.0.0"@);
    lemma_trimmed("Welcome to Kraken!"@);
    law_properties_read_back(default_config());
    reveal_strlit("\n");
    reveal_strlit("eula=false");
    reveal_strlit("eula=");
    reveal_strlit("true");
    reveal_strlit(
        "# By changing the setting below to TRUE you are indicating your agreement to our EULA (https://account.mojang.com/documents/minecraft_eula).",
    );
    let comment = eula_comment();
    let setting = "eula=false"@;
    let empty = Seq::<Seq<char>>::empty();
    assert("\n"@ =~= seq!['\n']);
    assert(default_eula_text() =~= comment + seq!['\n'] + (setting + seq!['\n'] + Seq::empty()));
    lemma_first_line(comment, setting + seq!['\n'] + Seq::empty());
    lemma_first_line(setting, Seq::empty());
    assert(lines(default_eula_text()) =~= empty.push(comment).push(setting));
    lemma_next_line(empty.push(comment), setting);
    assert(setting.take(5) =~= "eula="@);
    assert(has_prefix(setting, "eula="@));
    assert(without_prefix(setting, "eula="@).len() == 5);
    assert(without_prefix(setting, "eula="@)[0] == 'f');
    assert(without_prefix(setting, "eula="@).last() == 'e');
    lemma_trimmed(without_prefix(setting, "eula="@));
    let value = trim(without_prefix(setting, "eula="@));
    assert(ascii_lower_all(value).len() != ascii_lower_all("true"@).len());
}

/// A server that nothing was set for takes a thousand players on port 25565 of
/// every address, speaks version 776 and shows sixteen chunks.
pub proof fn law_default_settings()
    ensures
        default_config().max_players == 1000,
        default_config().server_port == 25565,
        default_config().target_protocol == 776,
        default_config().view_distance == 16,
        default_config().server_ip == seq!['0', '.', '0', '.', '0', '.', '0'],
{
    reveal_strlit("0.0.0.0");
    assert("0.0.0.0"@ =~= seq!['0', '.', '0', '.', '0', '.', '0']);
}

/// Each key sets the setting that it is named after, and no other. Numbers are
/// decimal; a view distance is limited to 2 to 32.
pub proof fn law_keys_set_what_they_name(
    c: ConfigText,
    text: Seq<char>,
    port: u16,
    players: u32,
    number: i32,
)
    requires
        trim(text) == text,
    ensures
        property_applied(c, "server-ip"@ + seq!['='] + text) == (ConfigText {
            server_ip: text,
            ..c
        }),
        property_applied(c, "motd"@ + seq!['='] + text) == (ConfigText { motd: text, ..c }),
        property_applied(c, "server-port"@ + seq!['='] + decimal(port as nat)) == (ConfigText {
            server_port: port,
            ..c
        }),
        property_applied(c, "max-players"@ + seq!['='] + decimal(players as nat)) == (ConfigText {
            max_players: players,
            ..c
        }),
        property_applied(c, "target-protocol"@ + seq!['='] + signed_decimal(number as int)) == (
        ConfigText { target_protocol: number, ..c }),
        2 <= number <= 32 ==> property_applied(
            c,
            "view-distance"@ + seq!['='] + signed_decimal(number as int),
        ) == (ConfigText { view_distance: number, ..c }),
        number < 2 ==> property_applied(
            c,
            "view-distance"@ + seq!['='] + signed_decimal(number as int),
        ) == (ConfigText { view_distance: 2, ..c }),
        number > 32 ==> property_applied(
            c,
            "view-distance"@ + seq!['='] + signed_decimal(number as int),
        ) == (ConfigText { view_distance: 32, ..c }),
{
    reveal_strlit("server-ip");
    reveal_strlit("server-port");
    reveal_strlit("target-protocol");
    reveal_strlit("max-players");
    reveal_strlit("view-distance");
    reveal_strlit("motd");
    assert("server-ip"@.len() == 9 && "server-port"@.len() == 11 && "target-protocol"@.len() == 15
        && "max-players"@.len() == 11 && "view-distance"@.len() == 13 && "motd"@.len() == 4);
    assert("server-port"@[0] == 's' && "max-players"@[0] == 'm');
    lemma_decimal_is_trimmed(port as nat);
    lemma_decimal_is_trimmed(players as nat);
    lemma_signed_is_trimmed(number as int);
    lemma_setting_line("server-ip"@, text);
    lemma_setting_line("motd"@, text);
    lemma_setting_line("server-port"@, decimal(port as nat));
    lemma_setting_line("max-players"@, decimal(players as nat));
    lemma_setting_line("target-protocol"@, signed_decimal(number as int));
    lemma_setting_line("view-distance"@, signed_decimal(number as int));
    lemma_numerals_parse(
        port as nat,
        number as int,
        u16::MAX as nat,
        i32::MIN as int,
        i32::MAX as int,
    );
    lemma_numerals_parse(
        players as nat,
        number as int,
        u32::MAX as nat,
        i32::MIN as int,
        i32::MAX as int,
    );
}

proof fn lemma_decimal_is_trimmed(n: nat)
    ensures
        trim(decimal(n)) == decimal(n),
{
    lemma_decimal_reads_back(n);
    assert('0' <= decimal(n)[0] <= '9');
    assert('0' <= decimal(n)[decimal(n).len() - 1] <= '9');
    lemma_trimmed(decimal(n));
}

proof fn lemma_signed_is_trimmed(i: int)
    ensures
        trim(signed_decimal(i)) == signed_decimal(i),
{
    lemma_signed_decimal_chars(i);
    let s = signed_decimal(i);
    assert(s[0] == '-' || '0' <= s[0] <= '9');
    assert(s[s.len() - 1] == '-' || '0' <= s[s.len() - 1] <= '9');
    lemma_trimmed(s);
}

/// Empty lines, comments, and lines without an equals sign set nothing.
pub proof fn law_comments_set_nothing(c: ConfigText, ls: Seq<Seq<char>>, line: Seq<char>)
    requires
        line.len() == 0 || line[0] == '#' || forall|i: int|
            0 <= i < line.len() ==> #[trigger] line[i] != '=',
    ensures
        property_applied(c, line) == c,
        config_of(ls.push(line)) == config_of(ls),
{
    lemma_find_char(line, '=');
    lemma_next_line(ls, line);
}

/// The EULA is accepted where its last setting is true, in capitals or not, with
/// or without blanks round it; any other value takes the agreement back.
pub proof fn law_last_eula_setting_decides(ls: Seq<Seq<char>>, value: Seq<char>)
    ensures
        eula_agreed(ls.push("eula="@ + value)) <==> same_ignoring_case(trim(value), "true"@),
        eula_agreed(ls.push(Seq::empty())) == eula_agreed(ls),
        eula_agreed(ls.push(seq!['#'] + value)) == eula_agreed(ls),
        !eula_agreed(Seq::empty()),
{
    reveal_strlit("eula=");
    let line = "eula="@ + value;
    assert(line[0] == 'e');
    assert(line.take(5) =~= "eula="@);
    assert(line.skip(5) =~= value);
    lemma_next_line(ls, line);
    lemma_next_line(ls, Seq::empty());
    assert((seq!['#'] + value)[0] == '#');
    lemma_next_line(ls, seq!['#'] + value);
}

/// A setting whose value holds no digit, or a number out of range, takes the
/// default back; the other settings stay.
pub proof fn law_unreadable_numbers_set_the_default(c: ConfigText, text: Seq<char>, large: nat)
    requires
        trim(text) == text,
        forall|i: int| 0 <= i < text.len() ==> !('0' <= #[trigger] text[i] <= '9'),
        large > u32::MAX,
    ensures
        property_applied(c, "server-port"@ + seq!['='] + text) == (ConfigText {
            server_port: 25565,
            ..c
        }),
        property_applied(c, "max-players"@ + seq!['='] + text) == (ConfigText {
            max_players: 1000,
            ..c
        }),
        property_applied(c, "target-protocol"@ + seq!['='] + text) == (ConfigText {
            target_protocol: 776,
            ..c
        }),
        property_applied(c, "view-distance"@ + seq!['='] + text) == (ConfigText {
            view_distance: 16,
            ..c
        }),
        property_applied(c, "server-port"@ + seq!['='] + decimal(large)) == (ConfigText {
            server_port: 25565,
            ..c
        }),
        property_applied(c, "max-players"@ + seq!['='] + decimal(large)) == (ConfigText {
            max_players: 1000,
            ..c
        }),
{
    reveal_strlit("server-ip");
    reveal_strlit("server-port");
    reveal_strlit("target-protocol");
    reveal_strlit("max-players");
    reveal_strlit("view-distance");
    reveal_strlit("motd");
    assert("server-ip"@.len() == 9 && "server-port"@.len() == 11 && "target-protocol"@.len() == 15
        && "max-players"@.len() == 11 && "view-distance"@.len() == 13 && "motd"@.len() == 4);
    assert("server-port"@[0] == 's' && "max-players"@[0] == 'm');
    lemma_setting_line("server-port"@, text);
    lemma_setting_line("max-players"@, text);
    lemma_setting_line("target-protocol"@, text);
    lemma_setting_line("view-distance"@, text);
    if text.len() > 0 {
        assert(!('0' <= text[text.len() - 1] <= '9'));
        assert(text.len() > 1 ==> text.drop_first().last() == text.last());
    }
    lemma_decimal_is_trimmed(large);
    lemma_setting_line("server-port"@, decimal(large));
    lemma_setting_line("max-players"@, decimal(large));
    lemma_decimal_reads_back(large);
    law_numerals_read_back(large, 0, u16::MAX as nat, 0, 0);
    law_numerals_read_back(large, 0, u32::MAX as nat, 0, 0);
}

/// Blanks round a key and round its value are of no account.
pub proof fn law_blanks_round_settings_are_ignored(
    c: ConfigText,
    key: Seq<char>,
    value: Seq<char>,
    a: Seq<char>,
    b: Seq<char>,
    d: Seq<char>,
    e: Seq<char>,
)
    requires
        key.len() > 0 && key[0] != '#' && !is_space(key[0]) && !is_space(key.last()),
        forall|i: int| 0 <= i < key.len() ==> key[i] != '=',
        value.len() > 0 && !is_space(value[0]) && !is_space(value.last()),
        is_blank(a) && is_blank(b) && is_blank(d) && is_blank(e),
    ensures
        property_applied(c, (a + key + b) + seq!['='] + (d + value + e)) == property_applied(
            c,
            key + seq!['='] + value,
        ),
{
    let head = a + key + b;
    let tail = d + value + e;
    let line = head + seq!['='] + tail;
    law_trimming_removes_blanks_only(a, key, b);
    law_trimming_removes_blanks_only(d, value, e);
    lemma_trimmed(value);
    lemma_setting_line(key, value);
    lemma_find_char(line, '=');
    let n = find_char(line, '=') as int;
    assert(line[head.len() as int] == '=');
    assert forall|i: int| 0 <= i < head.len() implies head[i] != '=' by {
        if i < a.len() {
            assert(is_space(a[i]));
        } else if i < a.len() + key.len() {
            assert(key[i - a.len()] != '=');
        } else {
            assert(is_space(b[i - a.len() - key.len()]));
        }
    }
    if n < head.len() {
        assert(line[n] == head[n]);
    }
    if a.len() > 0 {
        assert(is_space(a[0]));
    } else {
        assert(line[0] == key[0]);
    }
    assert(line.take(n) =~= head);
    assert(line.skip(n + 1) =~= tail);
}

} // verus!

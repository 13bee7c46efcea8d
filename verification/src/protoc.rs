//! Arguments of the `protoc` command, and reading of its version.
//!
//! Running the command is left to the caller; this module decides what to
//! run and what its output means.

use vstd::prelude::*;

use crate::protobuf_path::names_view;
use vstd::string::StrSliceExecFns;
use vstd::string::StringExecFns;
use vstd::utf8::decode_utf8;
use vstd::utf8::encode_utf8;
use vstd::utf8::encode_utf8_decode_utf8;
use vstd::utf8::encode_utf8_valid_utf8;
use vstd::utf8::valid_utf8;

verus! {

/// Errors of `protoc` invocation.
#[derive(PartialEq, Eq, Debug)]
pub enum Error {
    /// protoc command exited with non-zero code
    ProtocNonZero,
    /// protoc command `{0}` exited with non-zero code
    ProtocNamedNonZero(String),
    /// input is empty
    InputIsEmpty,
    /// output is empty
    OutputIsEmpty,
    /// output does not start with prefix
    OutputDoesNotStartWithPrefix,
    /// out_dir is empty
    OutDirIsEmpty,
    /// lang is empty
    LangIsEmpty,
    /// version is empty
    VersionIsEmpty,
    /// version does not start with digit
    VersionDoesNotStartWithDigit,
    /// failed to spawn command `{0}`
    FailedToSpawnCommand(String),
    /// protoc output is not UTF-8
    ProtocOutputIsNotUtf8,
}

/// `String::from_utf8`: the bytes as a string when they are valid UTF-8.
#[verifier::external_body]
fn string_from_utf8(bytes: Vec<u8>) -> (r: Option<String>)
    ensures
        r is Some <==> valid_utf8(bytes@),
        r matches Some(s) ==> s@ == decode_utf8(bytes@),
{
    String::from_utf8(bytes).ok()
}

/// The first line of a text, as `str::lines` gives it: up to the first
/// `\n`, without a `\r` just before it; `None` for an empty text.
pub open spec fn spec_first_line(s: Seq<char>) -> Option<Seq<char>> {
    if s.len() == 0 {
        None
    } else {
        match s.index_of_first('\n') {
            Some(k) => {
                let line = s.take(k);
                if line.len() > 0 && line.last() == '\r' {
                    Some(line.drop_last())
                } else {
                    Some(line)
                }
            },
            None => Some(s),
        }
    }
}

/// The prefix of the first line of `protoc --version`.
pub open spec fn version_prefix() -> Seq<char> {
    seq!['l', 'i', 'b', 'p', 'r', 'o', 't', 'o', 'c', ' ']
}

/// `c` is an ASCII decimal digit.
pub open spec fn is_decimal_digit(c: char) -> bool {
    '0' <= c && c <= '9'
}

/// What `protoc --version` printing `out` says: the version, or why the
/// output is not understood.
pub open spec fn spec_parse_version_output(out: Seq<u8>) -> Result<Seq<char>, Error> {
    if !valid_utf8(out) {
        Err(Error::ProtocOutputIsNotUtf8)
    } else {
        match spec_first_line(decode_utf8(out)) {
            None => Err(Error::OutputIsEmpty),
            Some(line) => if !(version_prefix().len() <= line.len() && line.take(
                version_prefix().len() as int,
            ) == version_prefix()) {
                Err(Error::OutputDoesNotStartWithPrefix)
            } else {
                let v = line.skip(version_prefix().len() as int);
                if v.len() == 0 {
                    Err(Error::VersionIsEmpty)
                } else if !is_decimal_digit(v[0]) {
                    Err(Error::VersionDoesNotStartWithDigit)
                } else {
                    Ok(v)
                }
            },
        }
    }
}

/// The version printed by `protoc --version` on its first line is read
/// back: for output `libprotoc VERSION\n...` where the version starts with
/// a digit and holds no line break, the result is the version.
pub proof fn lemma_parse_version_output_reads_version(version: Seq<char>, rest: Seq<char>)
    requires
        version.len() > 0,
        is_decimal_digit(version[0]),
        !version.contains('\n'),
        version.last() != '\r',
    ensures
        spec_parse_version_output(
            encode_utf8(version_prefix() + version + seq!['\n'] + rest),
        ) == Ok::<Seq<char>, Error>(version),
{
    let text = version_prefix() + version + seq!['\n'] + rest;
    encode_utf8_valid_utf8(text);
    encode_utf8_decode_utf8(text);
    let k = version_prefix().len() + version.len();
    assert(text[k as int] == '\n');
    assert forall|j: int| 0 <= j < k implies text[j] != '\n' by {
        if j >= version_prefix().len() {
            assert(text[j] == version[j - version_prefix().len()]);
        }
    }
    assert(text.contains('\n'));
    text.index_of_first_ensures('\n');
    let line = text.take(k as int);
    assert(line =~= version_prefix() + version);
    assert(line.last() == version.last());
    assert(line.take(version_prefix().len() as int) =~= version_prefix());
    assert(line.skip(version_prefix().len() as int) =~= version);
}

/// A line break written as `\r\n` ends the first line as `\n` does:
/// for output `libprotoc VERSION\r\n...`, whatever follows (nothing
/// included), where the version starts with a digit and holds no `\n`,
/// the result is the version, without the `\r`.
pub proof fn lemma_parse_version_output_reads_version_crlf(version: Seq<char>, rest: Seq<char>)
    requires
        version.len() > 0,
        is_decimal_digit(version[0]),
        !version.contains('\n'),
    ensures
        spec_parse_version_output(
            encode_utf8(version_prefix() + version + seq!['\r', '\n'] + rest),
        ) == Ok::<Seq<char>, Error>(version),
{
    let text = version_prefix() + version + seq!['\r', '\n'] + rest;
    encode_utf8_valid_utf8(text);
    encode_utf8_decode_utf8(text);
    let k = version_prefix().len() + version.len() + 1;
    assert(text[k as int] == '\n');
    assert(text[k - 1] == '\r');
    assert forall|j: int| 0 <= j < k implies text[j] != '\n' by {
        if version_prefix().len() <= j < k - 1 {
            assert(text[j] == version[j - version_prefix().len()]);
        }
    }
    assert(text.contains('\n'));
    text.index_of_first_ensures('\n');
    let line = text.take(k as int);
    assert(line.last() == '\r');
    assert(line.drop_last() =~= version_prefix() + version);
    assert(line.drop_last().take(version_prefix().len() as int) =~= version_prefix());
    assert(line.drop_last().skip(version_prefix().len() as int) =~= version);
}

/// Protobuf (protoc) version.
pub struct Version {
    version: String,
}

impl View for Version {
    type V = Seq<char>;

    closed spec fn view(&self) -> Seq<char> {
        self.version@
    }
}

/// Whether `s` starts with the characters of `prefix`.
fn str_starts_with(s: &str, prefix: &str) -> (r: bool)
    ensures
        r == (prefix@.len() <= s@.len() && s@.take(prefix@.len() as int) == prefix@),
{
    let n = s.unicode_len();
    let m = prefix.unicode_len();
    if m > n {
        return false;
    }
    let mut i: usize = 0;
    while i < m
        invariant
            i <= m <= n,
            n == s@.len(),
            m == prefix@.len(),
            s@.take(i as int) == prefix@.take(i as int),
        decreases m - i,
    {
        if s.get_char(i) != prefix.get_char(i) {
            assert(s@.take(m as int)[i as int] != prefix@[i as int]);
            return false;
        }
        assert(s@.take(i + 1) =~= s@.take(i as int).push(s@[i as int]));
        assert(prefix@.take(i + 1) =~= prefix@.take(i as int).push(prefix@[i as int]));
        i = i + 1;
    }
    assert(prefix@.take(m as int) =~= prefix@);
    true
}

/// The major version in a version text: what comes before the first `.`,
/// or the whole text when it has no `.`.
pub open spec fn major_version(s: Seq<char>) -> Seq<char>
    decreases s.len(),
{
    if s.len() == 0 || s[0] == '.' {
        Seq::empty()
    } else {
        seq![s[0]] + major_version(s.drop_first())
    }
}

/// The major version is what comes before the first dot: `3.x` and a
/// bare `3` have major version `3`; `3` followed by another digit, as in
/// `30.2`, does not; and nothing after the first dot matters.
pub proof fn lemma_major_version_is_3(rest: Seq<char>, d: char)
    ensures
        major_version(seq!['3', '.'] + rest) == seq!['3'],
        major_version(seq!['3']) == seq!['3'],
        is_decimal_digit(d) ==> major_version(seq!['3', d] + rest) != seq!['3'],
{
    let a = seq!['3', '.'] + rest;
    assert(a.drop_first()[0] == '.');
    assert(major_version(a.drop_first()) == Seq::<char>::empty());
    assert(major_version(a) =~= seq!['3']);
    let b = seq!['3'];
    assert(major_version(b.drop_first()) == Seq::<char>::empty());
    assert(major_version(b) =~= seq!['3']);
    if is_decimal_digit(d) {
        let c = seq!['3', d] + rest;
        assert(c.drop_first()[0] == d);
        assert(major_version(c.drop_first()) == seq![d] + major_version(c.drop_first().drop_first()));
        assert(major_version(c).len() >= 2);
    }
}

impl Version {
    /// The version text, such as `3.21.12`.
    pub fn as_str(&self) -> (r: &str)
        ensures
            r@ == self@,
    {
        self.version.as_str()
    }

    /// `true` if the protoc major version is 3.
    pub fn is_3(&self) -> (r: bool)
        ensures
            r == (major_version(self@) == seq!['3']),
    {
        let s = self.version.as_str();
        let n = s.unicode_len();
        let r = n >= 1 && s.get_char(0) == '3' && (n == 1 || s.get_char(1) == '.');
        proof {
            let v = self@;
            if v.len() >= 1 && v[0] != '.' {
                let rest = v.drop_first();
                assert(major_version(v) == seq![v[0]] + major_version(rest));
                if rest.len() >= 1 && rest[0] != '.' {
                    assert(major_version(rest) == seq![rest[0]] + major_version(rest.drop_first()));
                    assert(major_version(v).len() >= 2);
                }
                if rest.len() == 0 || rest[0] == '.' {
                    assert(major_version(v) =~= seq![v[0]]);
                }
                if major_version(v) == seq!['3'] {
                    assert(major_version(v)[0] == v[0]);
                    assert(major_version(rest).len() == 0);
                }
                if v.len() >= 2 {
                    assert(rest[0] == v[1]);
                }
            } else {
                assert(major_version(v).len() == 0);
            }
            if r {
                assert(v[0] == '3');
            }
        }
        r
    }

    /// Read the output of `protoc --version`: its first line must be
    /// `libprotoc ` followed by a version that starts with a digit.
    pub fn parse_version_output(stdout: Vec<u8>) -> (r: Result<Version, Error>)
        ensures
            match spec_parse_version_output(stdout@) {
                Ok(v) => r matches Ok(version) && version@ == v,
                Err(e) => r matches Err(re) && re == e,
            },
    {
        let output = match string_from_utf8(stdout) {
            Some(s) => s,
            None => return Err(Error::ProtocOutputIsNotUtf8),
        };
        let text = output.as_str();
        let n = text.unicode_len();
        if n == 0 {
            return Err(Error::OutputIsEmpty);
        }
        let ghost s = text@;
        proof {
            s.index_of_first_ensures('\n');
        }
        // first line: up to the first `\n`
        let mut k: usize = 0;
        while k < n && text.get_char(k) != '\n'
            invariant
                k <= n,
                n == s.len(),
                s == text@,
                forall|j: int| 0 <= j < k ==> s[j] != '\n',
            decreases n - k,
        {
            k = k + 1;
        }
        let mut end = k;
        if k < n {
            proof {
                assert(s[k as int] == '\n');
                assert(s.contains('\n'));
                s.index_of_first_ensures('\n');
            }
            if k > 0 && text.get_char(k - 1) == '\r' {
                end = k - 1;
            }
        } else {
            proof {
                s.index_of_first_ensures('\n');
            }
        }
        let line = text.substring_char(0, end);
        assert(spec_first_line(s) == Some(line@)) by {
            if k < n {
                if end < k {
                    assert(s.take(k as int).drop_last() =~= s.subrange(0, end as int));
                } else {
                    assert(s.take(k as int) =~= s.subrange(0, end as int));
                }
            } else {
                assert(s =~= s.subrange(0, end as int));
            }
        }

        let prefix = "libprotoc ";
        proof {
            reveal_strlit("libprotoc ");
            assert(prefix@ =~= version_prefix());
        }
        if !str_starts_with(line, prefix) {
            return Err(Error::OutputDoesNotStartWithPrefix);
        }
        let line_len = line.unicode_len();
        let version = line.substring_char(prefix.unicode_len(), line_len);
        assert(version@ =~= line@.skip(version_prefix().len() as int));
        if version.unicode_len() == 0 {
            return Err(Error::VersionIsEmpty);
        }
        let first = version.get_char(0);
        if !('0' <= first && first <= '9') {
            return Err(Error::VersionDoesNotStartWithDigit);
        }
        Ok(Version { version: version.to_owned() })
    }
}

/// `--{lang}_out={out_dir}`
pub open spec fn lang_out_flag(lang: Seq<char>, out_dir: Seq<char>) -> Seq<char> {
    seq!['-', '-'] + lang + seq!['_', 'o', 'u', 't', '='] + out_dir
}

/// `--plugin={plugin}`
pub open spec fn plugin_flag(plugin: Seq<char>) -> Seq<char> {
    seq!['-', '-', 'p', 'l', 'u', 'g', 'i', 'n', '='] + plugin
}

/// `-I{dir}`
pub open spec fn include_flag(dir: Seq<char>) -> Seq<char> {
    seq!['-', 'I'] + dir
}

/// `--descriptor_set_out={out}`
pub open spec fn descriptor_set_out_flag(out: Seq<char>) -> Seq<char> {
    seq![
        '-',
        '-',
        'd',
        'e',
        's',
        'c',
        'r',
        'i',
        'p',
        't',
        'o',
        'r',
        '_',
        's',
        'e',
        't',
        '_',
        'o',
        'u',
        't',
        '=',
    ] + out
}

/// `--include_imports`
pub open spec fn include_imports_flag() -> Seq<char> {
    seq!['-', '-', 'i', 'n', 'c', 'l', 'u', 'd', 'e', '_', 'i', 'm', 'p', 'o', 'r', 't', 's']
}

/// `-I` flags for a list of import directories.
pub open spec fn include_flags(includes: Seq<Seq<char>>) -> Seq<Seq<char>> {
    includes.map_values(|i: Seq<char>| include_flag(i))
}

/// `prefix` followed by `s`, as a new string.
fn prefixed(prefix: &str, s: &str) -> (r: String)
    ensures
        r@ == prefix@ + s@,
{
    let mut r = prefix.to_owned();
    r.append(s);
    r
}

/// `-I` flags for a list of import directories.
fn make_include_flags(includes: &Vec<String>) -> (r: Vec<String>)
    ensures
        names_view(r@) == include_flags(names_view(includes@)),
{
    let mut r: Vec<String> = Vec::new();
    let mut i: usize = 0;
    while i < includes.len()
        invariant
            i <= includes@.len(),
            names_view(r@) == include_flags(names_view(includes@.take(i as int))),
        decreases includes@.len() - i,
    {
        let flag = prefixed("-I", includes[i].as_str());
        proof {
            reveal_strlit("-I");
            assert(flag@ =~= include_flag(includes@[i as int]@));
        }
        let ghost before = r@;
        r.push(flag);
        assert(names_view(r@) =~= names_view(before).push(flag@));
        assert(include_flags(names_view(includes@.take(i + 1))) =~= include_flags(
            names_view(includes@.take(i as int)),
        ).push(include_flag(includes@[i as int]@)));
        i = i + 1;
    }
    assert(includes@.take(i as int) =~= includes@);
    r
}

/// Append copies of `items` to `r`.
fn extend_cloned(r: &mut Vec<String>, items: &Vec<String>)
    ensures
        names_view(final(r)@) == names_view(old(r)@) + names_view(items@),
{
    let mut i: usize = 0;
    while i < items.len()
        invariant
            i <= items@.len(),
            names_view(r@) == names_view(old(r)@) + names_view(items@.take(i as int)),
        decreases items@.len() - i,
    {
        let ghost before = r@;
        r.push(items[i].clone());
        assert(names_view(r@) =~= names_view(before).push(items@[i as int]@));
        assert(names_view(items@.take(i + 1)) =~= names_view(items@.take(i as int)).push(
            items@[i as int]@,
        ));
        i = i + 1;
    }
    assert(items@.take(i as int) =~= items@);
}

/// Views of a list of string slices.
pub open spec fn strs_view<'a>(v: Seq<&'a str>) -> Seq<Seq<char>> {
    v.map_values(|s: &'a str| s@)
}

/// Append owned copies of `items` to `v`.
fn push_strs(v: &mut Vec<String>, items: &[&str])
    ensures
        names_view(final(v)@) == names_view(old(v)@) + strs_view(items@),
{
    let mut i: usize = 0;
    while i < items.len()
        invariant
            i <= items@.len(),
            names_view(v@) == names_view(old(v)@) + strs_view(items@.take(i as int)),
        decreases items@.len() - i,
    {
        let ghost before = v@;
        v.push(items[i].to_owned());
        assert(names_view(v@) =~= names_view(before).push(items@[i as int]@));
        assert(strs_view(items@.take(i + 1)) =~= strs_view(items@.take(i as int)).push(
            items@[i as int]@,
        ));
        i = i + 1;
    }
    assert(items@.take(i as int) =~= items@);
}

/// Protoc command.
pub struct Protoc {
    /// Path of the executable.
    executable: String,
}

impl View for Protoc {
    type V = Seq<char>;

    closed spec fn view(&self) -> Seq<char> {
        self.executable@
    }
}

impl Protoc {
    /// New `protoc` command from specified path
    pub fn from_path(path: &str) -> (r: Protoc)
        ensures
            r@ == path@,
    {
        Protoc { executable: path.to_owned() }
    }

    /// Path of the executable.
    pub fn executable(&self) -> (r: &str)
        ensures
            r@ == self@,
    {
        self.executable.as_str()
    }

    /// Copy of the command.
    pub fn clone_protoc(&self) -> (r: Protoc)
        ensures
            r@ == self@,
    {
        Protoc { executable: self.executable.clone() }
    }

    /// Get default Args for this command.
    pub fn args(&self) -> (r: ProtocLangOut)
        ensures
            r.protoc matches Some(p) && p@ == self@,
            r.lang is None,
            r.out_dir is None,
            r.plugin is None,
            r.includes@.len() == 0,
            r.inputs@.len() == 0,
    {
        let mut r = ProtocLangOut::new();
        r.protoc = Some(self.clone_protoc());
        r
    }

    /// Get default DescriptorSetOutArgs for this command.
    pub fn descriptor_set_out_args(&self) -> (r: DescriptorSetOutArgs)
        ensures
            r.protoc@ == self@,
            r.out is None,
            r.includes@.len() == 0,
            r.inputs@.len() == 0,
            !r.include_imports,
            r.extra_args@.len() == 0,
    {
        DescriptorSetOutArgs {
            protoc: self.clone_protoc(),
            out: None,
            includes: Vec::new(),
            inputs: Vec::new(),
            include_imports: false,
            extra_args: Vec::new(),
        }
    }
}

/// `protoc --lang_out=... ...` command builder.
pub struct ProtocLangOut {
    /// The command; `protoc` found in `$PATH` when `None`.
    pub protoc: Option<Protoc>,
    /// `LANG` part in `--LANG_out=...`
    pub lang: Option<String>,
    /// `--LANG_out=...` param
    pub out_dir: Option<String>,
    /// `--plugin` param. Not needed if plugin is in `$PATH`
    pub plugin: Option<String>,
    /// `-I` args
    pub includes: Vec<String>,
    /// List of `.proto` files to compile
    pub inputs: Vec<String>,
}

/// Arguments `ProtocLangOut` gives `protoc`.
pub open spec fn spec_lang_out_args(
    lang: Seq<char>,
    out_dir: Seq<char>,
    inputs: Seq<Seq<char>>,
    plugin: Option<Seq<char>>,
    includes: Seq<Seq<char>>,
) -> Seq<Seq<char>> {
    seq![lang_out_flag(lang, out_dir)] + inputs + (match plugin {
        Some(p) => seq![plugin_flag(p)],
        None => Seq::empty(),
    }) + include_flags(includes)
}

/// The arguments for `--LANG_out` generation: first `--LANG_out=OUT_DIR`,
/// then each input; the `--plugin=PLUGIN` flag is there exactly when a
/// plugin is set, whatever the import directories, and there is one `-I`
/// flag for each import directory and nothing else.
pub proof fn lemma_lang_out_args_flags(
    lang: Seq<char>,
    out_dir: Seq<char>,
    inputs: Seq<Seq<char>>,
    plugin: Option<Seq<char>>,
    includes: Seq<Seq<char>>,
)
    ensures
        ({
            let args = spec_lang_out_args(lang, out_dir, inputs, plugin, includes);
            let n_plugin: int = if plugin is Some {
                1
            } else {
                0
            };
            &&& args.len() == 1 + inputs.len() + n_plugin + includes.len()
            &&& args[0] == seq!['-', '-'] + lang + seq!['_', 'o', 'u', 't', '='] + out_dir
            &&& forall|k: int| 0 <= k < inputs.len() ==> args[1 + k] == inputs[k]
            &&& plugin matches Some(p) ==> args[1 + inputs.len() as int] == seq![
                '-',
                '-',
                'p',
                'l',
                'u',
                'g',
                'i',
                'n',
                '=',
            ] + p && args.contains(seq!['-', '-', 'p', 'l', 'u', 'g', 'i', 'n', '='] + p)
            &&& forall|k: int|
                0 <= k < includes.len() ==> args[1 + inputs.len() + n_plugin + k] == seq!['-', 'I']
                    + includes[k]
        }),
{
    let args = spec_lang_out_args(lang, out_dir, inputs, plugin, includes);
    let n_plugin: int = if plugin is Some {
        1
    } else {
        0
    };
    let head = seq![lang_out_flag(lang, out_dir)] + inputs;
    let mid: Seq<Seq<char>> = match plugin {
        Some(p) => seq![plugin_flag(p)],
        None => Seq::empty(),
    };
    assert(args == head + mid + include_flags(includes));
    assert forall|k: int| 0 <= k < inputs.len() implies args[1 + k] == inputs[k] by {
        assert(head[1 + k] == inputs[k]);
    }
    if let Some(p) = plugin {
        assert(args[1 + inputs.len() as int] == plugin_flag(p));
    }
    assert forall|k: int| 0 <= k < includes.len() implies args[1 + inputs.len() + n_plugin + k]
        == seq!['-', 'I'] + includes[k] by {
        assert(include_flags(includes)[k] == include_flag(includes[k]));
    }
}

impl ProtocLangOut {
    /// Arguments to the `protoc` found in `$PATH`
    pub fn new() -> (r: ProtocLangOut)
        ensures
            r.protoc is None,
            r.lang is None,
            r.out_dir is None,
            r.plugin is None,
            r.includes@.len() == 0,
            r.inputs@.len() == 0,
    {
        ProtocLangOut {
            protoc: None,
            lang: None,
            out_dir: None,
            plugin: None,
            includes: Vec::new(),
            inputs: Vec::new(),
        }
    }

    /// Set `LANG` part in `--LANG_out=...`
    pub fn lang(&mut self, lang: &str) -> (r: &mut ProtocLangOut)
        ensures
            r.lang matches Some(l) && l@ == lang@,
            r.protoc == old(self).protoc,
            r.out_dir == old(self).out_dir,
            r.plugin == old(self).plugin,
            r.includes == old(self).includes,
            r.inputs == old(self).inputs,
            *final(self) == *final(r),
    {
        self.lang = Some(lang.to_owned());
        self
    }

    /// Set `--LANG_out=...` param
    pub fn out_dir(&mut self, out_dir: &str) -> (r: &mut ProtocLangOut)
        ensures
            r.out_dir matches Some(d) && d@ == out_dir@,
            r.protoc == old(self).protoc,
            r.lang == old(self).lang,
            r.plugin == old(self).plugin,
            r.includes == old(self).includes,
            r.inputs == old(self).inputs,
            *final(self) == *final(r),
    {
        self.out_dir = Some(out_dir.to_owned());
        self
    }

    /// Set `--plugin` param. Not needed if plugin is in `$PATH`
    pub fn plugin(&mut self, plugin: &str) -> (r: &mut ProtocLangOut)
        ensures
            r.plugin matches Some(p) && p@ == plugin@,
            r.protoc == old(self).protoc,
            r.lang == old(self).lang,
            r.out_dir == old(self).out_dir,
            r.includes == old(self).includes,
            r.inputs == old(self).inputs,
            *final(self) == *final(r),
    {
        self.plugin = Some(plugin.to_owned());
        self
    }

    /// Append a path to `-I` args
    pub fn include_path(&mut self, dir: &str) -> (r: &mut ProtocLangOut)
        ensures
            names_view(r.includes@) == names_view(old(self).includes@).push(dir@),
            r.protoc == old(self).protoc,
            r.lang == old(self).lang,
            r.out_dir == old(self).out_dir,
            r.plugin == old(self).plugin,
            r.inputs == old(self).inputs,
            *final(self) == *final(r),
    {
        let ghost before = self.includes@;
        self.includes.push(dir.to_owned());
        assert(names_view(self.includes@) =~= names_view(before).push(dir@));
        self
    }

    /// Append multiple paths to `-I` args
    pub fn includes(&mut self, dirs: &[&str]) -> (r: &mut ProtocLangOut)
        ensures
            names_view(r.includes@) == names_view(old(self).includes@) + strs_view(dirs@),
            r.protoc == old(self).protoc,
            r.lang == old(self).lang,
            r.out_dir == old(self).out_dir,
            r.plugin == old(self).plugin,
            r.inputs == old(self).inputs,
            *final(self) == *final(r),
    {
        push_strs(&mut self.includes, dirs);
        self
    }

    /// Append a `.proto` file path to compile
    pub fn input(&mut self, input: &str) -> (r: &mut ProtocLangOut)
        ensures
            names_view(r.inputs@) == names_view(old(self).inputs@).push(input@),
            r.protoc == old(self).protoc,
            r.lang == old(self).lang,
            r.out_dir == old(self).out_dir,
            r.plugin == old(self).plugin,
            r.includes == old(self).includes,
            *final(self) == *final(r),
    {
        let ghost before = self.inputs@;
        self.inputs.push(input.to_owned());
        assert(names_view(self.inputs@) =~= names_view(before).push(input@));
        self
    }

    /// Append multiple `.proto` file paths to compile
    pub fn inputs(&mut self, inputs: &[&str]) -> (r: &mut ProtocLangOut)
        ensures
            names_view(r.inputs@) == names_view(old(self).inputs@) + strs_view(inputs@),
            r.protoc == old(self).protoc,
            r.lang == old(self).lang,
            r.out_dir == old(self).out_dir,
            r.plugin == old(self).plugin,
            r.includes == old(self).includes,
            *final(self) == *final(r),
    {
        push_strs(&mut self.inputs, inputs);
        self
    }

    /// The arguments to run `protoc` with: `--LANG_out=OUT_DIR`, the
    /// inputs, `--plugin=PLUGIN` if set, and a `-I` flag per import directory.
    pub fn command_args(&self) -> (r: Result<Vec<String>, Error>)
        ensures
            self.inputs@.len() == 0 ==> r == Err::<Vec<String>, Error>(Error::InputIsEmpty),
            self.inputs@.len() != 0 && self.out_dir is None ==> r == Err::<Vec<String>, Error>(
                Error::OutDirIsEmpty,
            ),
            self.inputs@.len() != 0 && self.out_dir is Some && self.lang is None ==> r == Err::<Vec<String>, Error>(
                Error::LangIsEmpty,
            ),
            self.inputs@.len() != 0 && self.out_dir is Some && self.lang is Some ==> (r matches Ok(
                args,
            ) && names_view(args@) == spec_lang_out_args(
                self.lang.unwrap()@,
                self.out_dir.unwrap()@,
                names_view(self.inputs@),
                match self.plugin {
                    Some(p) => Some(p@),
                    None => None,
                },
                names_view(self.includes@),
            )),
    {
        if self.inputs.len() == 0 {
            return Err(Error::InputIsEmpty);
        }
        let out_dir = match &self.out_dir {
            Some(d) => d,
            None => return Err(Error::OutDirIsEmpty),
        };
        let lang = match &self.lang {
            Some(l) => l,
            None => return Err(Error::LangIsEmpty),
        };

        // --{lang}_out={out_dir}
        let mut lang_out = "--".to_owned();
        lang_out.append(lang.as_str());
        lang_out.append("_out=");
        lang_out.append(out_dir.as_str());
        proof {
            reveal_strlit("--");
            reveal_strlit("_out=");
            assert(lang_out@ =~= lang_out_flag(lang@, out_dir@));
        }

        let mut cmd_args: Vec<String> = Vec::new();
        cmd_args.push(lang_out);
        extend_cloned(&mut cmd_args, &self.inputs);
        let ghost before_plugin = cmd_args@;
        // --plugin={plugin}
        match &self.plugin {
            Some(plugin) => {
                let flag = prefixed("--plugin=", plugin.as_str());
                proof {
                    reveal_strlit("--plugin=");
                    assert(flag@ =~= plugin_flag(plugin@));
                }
                cmd_args.push(flag);
                assert(names_view(cmd_args@) =~= names_view(before_plugin).push(flag@));
            },
            None => {},
        }
        let ghost before_includes = cmd_args@;
        // -I{dir}
        let include_flags = make_include_flags(&self.includes);
        extend_cloned(&mut cmd_args, &include_flags);
        assert(names_view(cmd_args@) =~= spec_lang_out_args(
            lang@,
            out_dir@,
            names_view(self.inputs@),
            match self.plugin {
                Some(p) => Some(p@),
                None => None,
            },
            names_view(self.includes@),
        ));
        Ok(cmd_args)
    }
}

/// `Protoc --descriptor_set_out...` args
pub struct DescriptorSetOutArgs {
    /// The command.
    pub protoc: Protoc,
    /// `--file_descriptor_out=...` param
    pub out: Option<String>,
    /// `-I` args
    pub includes: Vec<String>,
    /// List of `.proto` files to compile
    pub inputs: Vec<String>,
    /// `--include_imports`
    pub include_imports: bool,
    /// Extra command line flags (like `--experimental_allow_proto3_optional`)
    pub extra_args: Vec<String>,
}

/// Arguments `DescriptorSetOutArgs` gives `protoc`.
pub open spec fn spec_descriptor_set_out_args(
    includes: Seq<Seq<char>>,
    out: Seq<char>,
    include_imports: bool,
    inputs: Seq<Seq<char>>,
    extra_args: Seq<Seq<char>>,
) -> Seq<Seq<char>> {
    include_flags(includes) + seq![descriptor_set_out_flag(out)] + (if include_imports {
        seq![include_imports_flag()]
    } else {
        Seq::empty()
    }) + inputs + extra_args
}

/// The arguments for writing a descriptor set: one `-I` flag for each
/// import directory, then `--descriptor_set_out=OUT`, then
/// `--include_imports` exactly when imports are included, then each input,
/// then each extra argument, and nothing else.
pub proof fn lemma_descriptor_set_out_args_flags(
    includes: Seq<Seq<char>>,
    out: Seq<char>,
    include_imports: bool,
    inputs: Seq<Seq<char>>,
    extra_args: Seq<Seq<char>>,
)
    ensures
        ({
            let args = spec_descriptor_set_out_args(
                includes,
                out,
                include_imports,
                inputs,
                extra_args,
            );
            let n: int = includes.len() as int;
            let n_imports: int = if include_imports {
                1
            } else {
                0
            };
            &&& args.len() == n + 1 + n_imports + inputs.len() + extra_args.len()
            &&& forall|k: int| 0 <= k < n ==> args[k] == "-I"@ + includes[k]
            &&& args[n] == "--descriptor_set_out="@ + out
            &&& include_imports ==> args[n + 1] == "--include_imports"@
            &&& forall|k: int| 0 <= k < inputs.len() ==> args[n + 1 + n_imports + k] == inputs[k]
            &&& forall|k: int|
                0 <= k < extra_args.len() ==> args[n + 1 + n_imports + inputs.len() + k]
                    == extra_args[k]
        }),
{
    reveal_strlit("-I");
    reveal_strlit("--descriptor_set_out=");
    reveal_strlit("--include_imports");
    let n: int = includes.len() as int;
    let args = spec_descriptor_set_out_args(includes, out, include_imports, inputs, extra_args);
    let mid: Seq<Seq<char>> = if include_imports {
        seq![include_imports_flag()]
    } else {
        Seq::empty()
    };
    let head = include_flags(includes) + seq![descriptor_set_out_flag(out)] + mid;
    assert(args == head + inputs + extra_args);
    assert forall|k: int| 0 <= k < n implies args[k] == "-I"@ + includes[k] by {
        assert(args[k] == include_flag(includes[k]));
        assert("-I"@ =~= seq!['-', 'I']);
    }
    assert(args[n] == descriptor_set_out_flag(out));
    assert("--descriptor_set_out="@ + out =~= descriptor_set_out_flag(out));
    if include_imports {
        assert(args[n + 1] == include_imports_flag());
        assert("--include_imports"@ =~= include_imports_flag());
    }
    assert forall|k: int| 0 <= k < inputs.len() implies args[head.len() + k] == inputs[k] by {}
    assert forall|k: int| 0 <= k < extra_args.len() implies args[head.len() + inputs.len() + k]
        == extra_args[k] by {}
}

impl DescriptorSetOutArgs {
    /// Set `--file_descriptor_out=...` param
    pub fn out(&mut self, out: &str) -> (r: &mut DescriptorSetOutArgs)
        ensures
            r.out matches Some(o) && o@ == out@,
            r.protoc == old(self).protoc,
            r.includes == old(self).includes,
            r.inputs == old(self).inputs,
            r.include_imports == old(self).include_imports,
            r.extra_args == old(self).extra_args,
            *final(self) == *final(r),
    {
        self.out = Some(out.to_owned());
        self
    }

    /// Append a path to `-I` args
    pub fn include_path(&mut self, dir: &str) -> (r: &mut DescriptorSetOutArgs)
        ensures
            names_view(r.includes@) == names_view(old(self).includes@).push(dir@),
            r.protoc == old(self).protoc,
            r.out == old(self).out,
            r.inputs == old(self).inputs,
            r.include_imports == old(self).include_imports,
            r.extra_args == old(self).extra_args,
            *final(self) == *final(r),
    {
        let ghost before = self.includes@;
        self.includes.push(dir.to_owned());
        assert(names_view(self.includes@) =~= names_view(before).push(dir@));
        self
    }

    /// Append multiple paths to `-I` args
    pub fn includes(&mut self, dirs: &[&str]) -> (r: &mut DescriptorSetOutArgs)
        ensures
            names_view(r.includes@) == names_view(old(self).includes@) + strs_view(dirs@),
            r.protoc == old(self).protoc,
            r.out == old(self).out,
            r.inputs == old(self).inputs,
            r.include_imports == old(self).include_imports,
            r.extra_args == old(self).extra_args,
            *final(self) == *final(r),
    {
        push_strs(&mut self.includes, dirs);
        self
    }

    /// Append a `.proto` file path to compile
    pub fn input(&mut self, input: &str) -> (r: &mut DescriptorSetOutArgs)
        ensures
            names_view(r.inputs@) == names_view(old(self).inputs@).push(input@),
            r.protoc == old(self).protoc,
            r.out == old(self).out,
            r.includes == old(self).includes,
            r.include_imports == old(self).include_imports,
            r.extra_args == old(self).extra_args,
            *final(self) == *final(r),
    {
        let ghost before = self.inputs@;
        self.inputs.push(input.to_owned());
        assert(names_view(self.inputs@) =~= names_view(before).push(input@));
        self
    }

    /// Append multiple `.proto` file paths to compile
    pub fn inputs(&mut self, inputs: &[&str]) -> (r: &mut DescriptorSetOutArgs)
        ensures
            names_view(r.inputs@) == names_view(old(self).inputs@) + strs_view(inputs@),
            r.protoc == old(self).protoc,
            r.out == old(self).out,
            r.includes == old(self).includes,
            r.include_imports == old(self).include_imports,
            r.extra_args == old(self).extra_args,
            *final(self) == *final(r),
    {
        push_strs(&mut self.inputs, inputs);
        self
    }

    /// Set `--include_imports`
    pub fn include_imports(&mut self, include_imports: bool) -> (r: &mut DescriptorSetOutArgs)
        ensures
            r.include_imports == include_imports,
            r.protoc == old(self).protoc,
            r.out == old(self).out,
            r.includes == old(self).includes,
            r.inputs == old(self).inputs,
            r.extra_args == old(self).extra_args,
            *final(self) == *final(r),
    {
        self.include_imports = include_imports;
        self
    }

    /// Add command line flags like `--experimental_allow_proto3_optional`.
    pub fn extra_arg(&mut self, arg: &str) -> (r: &mut DescriptorSetOutArgs)
        ensures
            names_view(r.extra_args@) == names_view(old(self).extra_args@).push(arg@),
            r.protoc == old(self).protoc,
            r.out == old(self).out,
            r.includes == old(self).includes,
            r.inputs == old(self).inputs,
            r.include_imports == old(self).include_imports,
            *final(self) == *final(r),
    {
        let ghost before = self.extra_args@;
        self.extra_args.push(arg.to_owned());
        assert(names_view(self.extra_args@) =~= names_view(before).push(arg@));
        self
    }

    /// Add command line flags like `--experimental_allow_proto3_optional`.
    pub fn extra_args(&mut self, args: &[&str]) -> (r: &mut DescriptorSetOutArgs)
        ensures
            names_view(r.extra_args@) == names_view(old(self).extra_args@) + strs_view(args@),
            r.protoc == old(self).protoc,
            r.out == old(self).out,
            r.includes == old(self).includes,
            r.inputs == old(self).inputs,
            r.include_imports == old(self).include_imports,
            *final(self) == *final(r),
    {
        push_strs(&mut self.extra_args, args);
        self
    }

    /// The arguments to run `protoc` with: a `-I` flag per import directory,
    /// `--descriptor_set_out=OUT`, `--include_imports` if set, the inputs
    /// and the extra arguments.
    pub fn command_args(&self) -> (r: Result<Vec<String>, Error>)
        ensures
            self.inputs@.len() == 0 ==> r == Err::<Vec<String>, Error>(Error::InputIsEmpty),
            self.inputs@.len() != 0 && self.out is None ==> r == Err::<Vec<String>, Error>(
                Error::OutputIsEmpty,
            ),
            self.inputs@.len() != 0 && self.out is Some ==> (r matches Ok(args) && names_view(
                args@,
            ) == spec_descriptor_set_out_args(
                names_view(self.includes@),
                self.out.unwrap()@,
                self.include_imports,
                names_view(self.inputs@),
                names_view(self.extra_args@),
            )),
    {
        if self.inputs.len() == 0 {
            return Err(Error::InputIsEmpty);
        }
        let out = match &self.out {
            Some(o) => o,
            None => return Err(Error::OutputIsEmpty),
        };

        // -I{dir}
        let include_flags = make_include_flags(&self.includes);

        // --descriptor_set_out={out}
        let set_out = prefixed("--descriptor_set_out=", out.as_str());
        proof {
            reveal_strlit("--descriptor_set_out=");
            assert(set_out@ =~= descriptor_set_out_flag(out@));
        }

        let mut cmd_args: Vec<String> = Vec::new();
        extend_cloned(&mut cmd_args, &include_flags);
        let ghost b1 = cmd_args@;
        cmd_args.push(set_out);
        assert(names_view(cmd_args@) =~= names_view(b1).push(set_out@));
        let ghost b2 = cmd_args@;
        // --include_imports
        if self.include_imports {
            let flag = "--include_imports".to_owned();
            proof {
                reveal_strlit("--include_imports");
                assert(flag@ =~= include_imports_flag());
            }
            cmd_args.push(flag);
            assert(names_view(cmd_args@) =~= names_view(b2).push(flag@));
        }
        extend_cloned(&mut cmd_args, &self.inputs);
        extend_cloned(&mut cmd_args, &self.extra_args);
        assert(names_view(cmd_args@) =~= spec_descriptor_set_out_args(
            names_view(self.includes@),
            out@,
            self.include_imports,
            names_view(self.inputs@),
            names_view(self.extra_args@),
        ));
        Ok(cmd_args)
    }
}

} // verus!

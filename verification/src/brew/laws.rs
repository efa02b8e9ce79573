//! What holds of bottles, of Brewfiles and of the places that bottles name.
use vstd::prelude::*;

use crate::brew::client;
use crate::brew::installer::CommandModel;
use crate::brew::installer;
use crate::brew::parser::BrewDep;
use crate::brew::parser::BrewDepKind;
use crate::brew::parser;
use crate::brew::resolver;
use crate::config::PackageEntry;
use crate::doc::DocModel;
use crate::doc;
use crate::path_laws;
use crate::paths;
use crate::text;
use crate::text_laws;

verus! {

// ── Platforms ───────────────────────────────────────────────────────────────
/// The names of the versions of macOS, and the tags of bottles for the platforms.
pub proof fn bottle_tags(os: Seq<char>, arch: Seq<char>, major: u32)
    ensures
        client::macos_name(26) == "tahoe"@,
        client::macos_name(15) == "sequoia"@,
        client::macos_name(14) == "sonoma"@,
        client::macos_name(13) == "ventura"@,
        client::macos_name(12) == "monterey"@,
        client::macos_name(11) == "big_sur"@,
        client::platform_tag("macos"@, "aarch64"@, major) == Some(
            "arm64_"@ + client::macos_name(major),
        ),
        client::platform_tag("macos"@, "x86_64"@, major) == Some(client::macos_name(major)),
        client::platform_tag("linux"@, "aarch64"@, major) == Some("arm64_linux"@),
        client::platform_tag("linux"@, "x86_64"@, major) == Some("x86_64_linux"@),
        os != "macos"@ && os != "linux"@ ==> client::platform_tag(os, arch, major) is None,
{
    reveal_strlit("macos");
    reveal_strlit("linux");
    reveal_strlit("aarch64");
    reveal_strlit("x86_64");
    assert("macos"@[0] == 'm' && "linux"@[0] == 'l');
    assert("aarch64"@[0] == 'a' && "x86_64"@[0] == 'x');
}

/// The major version of macOS is the number before the first point, whatever follows
/// it.
pub proof fn major_version_is_read(n: u32, rest: Seq<char>)
    requires
        forall|i: int| 0 <= i < rest.len() ==> !text::is_whitespace(#[trigger] rest[i]),
    ensures
        client::major_in(text::decimal(n as nat)) == Some(n as nat),
        client::major_in(text::decimal(n as nat) + seq!['.'] + rest) == Some(n as nat),
        client::major_in(text::decimal(n as nat) + seq!['.'] + rest + seq!['\n']) == Some(n as nat),
{
    let d = text::decimal(n as nat);
    text::decimal_is_read(n as nat);
    text_laws::numbers_are_read(n as nat, u32::MAX as nat, Seq::empty());
    assert(text::is_digit(d[0]));
    assert(text::is_digit(d[d.len() - 1]));
    assert(!d.contains('.')) by {
        assert forall|i: int| 0 <= i < d.len() implies d[i] != '.' by {
            assert(text::is_digit(d[i]));
        }
    }
    text_laws::before_ends_at_first(d, '.', rest);
    assert(text::trim(d) == d);
    let s = d + seq!['.'] + rest;
    assert(s[0] == d[0]);
    assert(!text::is_whitespace(s.last())) by {
        if rest.len() > 0 {
            assert(s.last() == rest[rest.len() - 1]);
        } else {
            assert(s.last() == '.');
        }
    }
    assert(text::trim(s) == s);
    let line = s + seq!['\n'];
    assert(line[0] == d[0] && line.last() == '\n');
    assert(line.drop_last() =~= s);
    assert(text::trim_start(line) == line);
    assert(text::trim_end(s) == s);
    assert(text::trim(line) == s);
}

// ── Bottles ─────────────────────────────────────────────────────────────────
/// The versions of macOS that have bottles, the newest first, for the one processor
/// and for the other.
pub open spec fn versions(arm: bool) -> Seq<Seq<char>> {
    if arm {
        seq![
            "arm64_tahoe"@,
            "arm64_sequoia"@,
            "arm64_sonoma"@,
            "arm64_ventura"@,
            "arm64_monterey"@,
            "arm64_big_sur"@,
        ]
    } else {
        seq!["tahoe"@, "sequoia"@, "sonoma"@, "ventura"@, "monterey"@, "big_sur"@]
    }
}

/// A bottle that is described: where it is and what its checksum is.
pub open spec fn is_bottle(entry: DocModel, url: Seq<char>, sha256: Seq<char>) -> bool {
    entry matches DocModel::Table(fields) && doc::lookup(fields, "url"@) == Some(
        DocModel::Text(url),
    ) && doc::lookup(fields, "sha256"@) == Some(DocModel::Text(sha256))
}

proof fn version_names()
    ensures
        forall|i: int, j: int|
            0 <= i < j < 6 ==> #[trigger] versions(true)[i] != #[trigger] versions(true)[j],
        forall|i: int, j: int|
            0 <= i < j < 6 ==> #[trigger] versions(false)[i] != #[trigger] versions(false)[j],
        forall|i: int| 0 <= i < 6 ==> "arm64_"@.is_prefix_of(#[trigger] versions(true)[i]),
        forall|i: int| 0 <= i < 6 ==> !"arm64_"@.is_prefix_of(#[trigger] versions(false)[i]),
        forall|i: int| 0 <= i < 6 ==> !text::contains(#[trigger] versions(true)[i], "linux"@),
        forall|i: int| 0 <= i < 6 ==> !text::contains(#[trigger] versions(false)[i], "linux"@),
{
    arm_names();
    intel_names();
}

proof fn no_linux(s: Seq<char>)
    requires
        !s.contains('x'),
    ensures
        !text::contains(s, "linux"@),
{
    reveal_strlit("linux");
    text_laws::find_is_first(s, "linux"@);
    if text::contains(s, "linux"@) {
        let k = text::find(s, "linux"@)->0;
        assert(s.subrange(k, k + 5)[4] == s[k + 4]);
        assert(s.contains(s[k + 4]));
    }
}

proof fn arm_names()
    ensures
        forall|i: int, j: int|
            0 <= i < j < 6 ==> #[trigger] versions(true)[i] != #[trigger] versions(true)[j],
        forall|i: int| 0 <= i < 6 ==> "arm64_"@.is_prefix_of(#[trigger] versions(true)[i]),
        forall|i: int| 0 <= i < 6 ==> !text::contains(#[trigger] versions(true)[i], "linux"@),
{
    reveal_strlit("arm64_");
    reveal_strlit("arm64_tahoe");
    reveal_strlit("arm64_sequoia");
    reveal_strlit("arm64_sonoma");
    reveal_strlit("arm64_ventura");
    reveal_strlit("arm64_monterey");
    reveal_strlit("arm64_big_sur");
    let v = versions(true);
    assert(v[0].len() == 11 && v[1].len() == 13 && v[2].len() == 12 && v[3].len() == 13
        && v[4].len() == 14 && v[5].len() == 13);
    assert(v[1][6] == 's' && v[3][6] == 'v' && v[5][6] == 'b');
    assert forall|i: int| 0 <= i < 6 implies "arm64_"@.is_prefix_of(#[trigger] v[i]) by {
        assert(v[i].subrange(0, 6) =~= "arm64_"@);
    }
    assert forall|i: int| 0 <= i < 6 implies !text::contains(#[trigger] v[i], "linux"@) by {
        assert(!v[i].contains('x'));
        no_linux(v[i]);
    }
}

proof fn intel_names()
    ensures
        forall|i: int, j: int|
            0 <= i < j < 6 ==> #[trigger] versions(false)[i] != #[trigger] versions(false)[j],
        forall|i: int| 0 <= i < 6 ==> !"arm64_"@.is_prefix_of(#[trigger] versions(false)[i]),
        forall|i: int| 0 <= i < 6 ==> !text::contains(#[trigger] versions(false)[i], "linux"@),
{
    reveal_strlit("arm64_");
    reveal_strlit("tahoe");
    reveal_strlit("sequoia");
    reveal_strlit("sonoma");
    reveal_strlit("ventura");
    reveal_strlit("monterey");
    reveal_strlit("big_sur");
    let v = versions(false);
    assert(v[0].len() == 5 && v[1].len() == 7 && v[2].len() == 6 && v[3].len() == 7 && v[4].len()
        == 8 && v[5].len() == 7);
    assert(v[1][0] == 's' && v[3][0] == 'v' && v[5][0] == 'b');
    assert forall|i: int| 0 <= i < 6 implies !"arm64_"@.is_prefix_of(#[trigger] v[i]) by {
        text_laws::no_prefix("arm64_"@, v[i], 0);
    }
    assert forall|i: int| 0 <= i < 6 implies !text::contains(#[trigger] v[i], "linux"@) by {
        assert(!v[i].contains('x'));
        no_linux(v[i]);
    }
}

proof fn first_of_the_rest(
    files: DocModel,
    tags: Seq<Seq<char>>,
    j: int,
    url: Seq<char>,
    sha256: Seq<char>,
)
    requires
        0 <= j <= tags.len(),
        forall|k: int| 0 <= k < j ==> doc::get(files, #[trigger] tags[k]) is None,
        j < tags.len() ==> (doc::get(files, tags[j]) matches Some(entry) && is_bottle(
            entry,
            url,
            sha256,
        )),
    ensures
        client::first_entry(Some(files), tags) == (if j < tags.len() {
            Some((url, sha256))
        } else {
            None
        }),
    decreases tags.len(),
{
    if tags.len() > 0 && j > 0 {
        let rest = tags.skip(1);
        assert(doc::get(files, tags[0]) is None);
        assert forall|k: int| 0 <= k < j - 1 implies doc::get(files, #[trigger] rest[k]) is None by {
            assert(rest[k] == tags[k + 1]);
        }
        if j < tags.len() {
            assert(rest[j - 1] == tags[j]);
        }
        first_of_the_rest(files, rest, j - 1, url, sha256);
    }
}

/// A bottle for the platform itself is taken where there is one. On macOS, where there
/// is none, the bottle of the next older version is taken that has one, for the same
/// processor; never that of a newer version. Without any there is no bottle.
pub proof fn older_bottle_is_taken(
    files: DocModel,
    arm: bool,
    i: int,
    j: int,
    url: Seq<char>,
    sha256: Seq<char>,
)
    requires
        0 <= i <= j <= 6,
        i < 6,
        forall|k: int| i <= k < j ==> doc::get(files, #[trigger] versions(arm)[k]) is None,
        j < 6 ==> (doc::get(files, versions(arm)[j]) matches Some(entry) && is_bottle(
            entry,
            url,
            sha256,
        )),
    ensures
        client::chosen_bottle(Some(files), versions(arm)[i]) == (if j < 6 {
            Some((url, sha256))
        } else {
            None
        }),
{
    version_names();
    let tags = versions(arm);
    let preferred = tags[i];
    assert(tags =~= client::chain(arm));
    assert(tags.len() == 6);
    if i < j {
        assert(doc::get(files, preferred) is None);
        assert(tags.contains(preferred));
        let n = tags.index_of_first(preferred)->0;
        tags.index_of_first_ensures(preferred);
        assert(tags[n] == preferred);
        assert(n == i) by {
            if n < i {
                assert(tags[n] != tags[i]);
            } else if i < n {
                assert(tags[i] != tags[n]);
            }
        }
        let rest = tags.skip(i);
        assert forall|k: int| 0 <= k < j - i implies doc::get(files, #[trigger] rest[k]) is None by {
            assert(rest[k] == tags[i + k]);
        }
        if j < 6 {
            assert(rest[j - i] == tags[j]);
        }
        first_of_the_rest(files, rest, j - i, url, sha256);
    }
}

/// On Linux there is only the bottle for the platform itself.
pub proof fn linux_bottle_is_exact(
    files: DocModel,
    tag: Seq<char>,
    url: Seq<char>,
    sha256: Seq<char>,
)
    requires
        tag == "x86_64_linux"@ || tag == "arm64_linux"@,
    ensures
        doc::get(files, tag) is None ==> client::chosen_bottle(Some(files), tag) is None,
        (doc::get(files, tag) matches Some(entry) && is_bottle(entry, url, sha256))
            ==> client::chosen_bottle(Some(files), tag) == Some((url, sha256)),
{
    reveal_strlit("x86_64_linux");
    reveal_strlit("arm64_linux");
    reveal_strlit("linux");
    let n = tag.len() - 5;
    let none = Seq::<char>::empty();
    assert(tag =~= tag.take(n) + "linux"@ + none);
    text_laws::contains_part(tag.take(n), "linux"@, none);
}

/// The bottles that have to be brought are those of packages whose path is neither in
/// the store nor that of a package before.
pub proof fn missing_bottles(before: Seq<PackageEntry>, p: PackageEntry, in_store: Seq<Seq<char>>)
    ensures
        ({
            let known = in_store.contains(p.store_path@) || exists|k: int|
                0 <= k < before.len() && (#[trigger] before[k]).store_path@ == p.store_path@;
            client::missing(before.push(p), in_store) == (if known {
                client::missing(before, in_store)
            } else {
                client::missing(before, in_store).push(p.name@)
            })
        }),
        client::missing(Seq::empty(), in_store) == Seq::<Seq<char>>::empty(),
{
    let all = before.push(p);
    assert(all.drop_last() =~= before && all.last() == p);
}

// ── Brewfiles ───────────────────────────────────────────────────────────────
/// A name in a Brewfile: no spaces, no quotes and no commas.
pub open spec fn is_brew_name(name: Seq<char>) -> bool {
    name.len() > 0 && forall|i: int|
        0 <= i < name.len() ==> !text::is_whitespace(#[trigger] name[i]) && name[i] != '"'
            && name[i] != '\'' && name[i] != ','
}

/// The words that start the lines of a Brewfile, with what they stand for.
pub open spec fn is_directive(word: Seq<char>, kind: BrewDepKind) -> bool {
    match kind {
        BrewDepKind::Formula => word == "brew "@,
        BrewDepKind::Cask => word == "cask "@,
        BrewDepKind::Tap => word == "tap "@,
    }
}

proof fn directive_is_read(word: Seq<char>, kind: BrewDepKind, rest: Seq<char>)
    requires
        is_directive(word, kind),
    ensures
        parser::directive(word + rest) == Some((kind, rest)),
        (word + rest)[0] != '#',
        !text::is_whitespace((word + rest)[0]),
{
    reveal_strlit("brew ");
    reveal_strlit("cask ");
    reveal_strlit("tap ");
    let s = word + rest;
    text_laws::joined_ends(word, rest);
    assert(s[0] == word[0]);
    if kind != BrewDepKind::Formula {
        text_laws::no_prefix("brew "@, s, 0);
        if kind != BrewDepKind::Cask {
            text_laws::no_prefix("cask "@, s, 0);
        }
    }
}

proof fn line_is_read(line: Seq<char>, d: Option<(Seq<char>, BrewDepKind)>, before: Seq<Seq<char>>)
    requires
        line.len() > 0,
        line[0] != '#',
        !text::is_whitespace(line[0]),
        !text::is_whitespace(line.last()),
        parser::line_dep(line) == d,
    ensures
        parser::lines_deps(before.push(line)) == match d {
            Some(d) => parser::lines_deps(before).push(d),
            None => parser::lines_deps(before),
        },
{
    let all = before.push(line);
    assert(all.drop_last() =~= before && all.last() == line);
    assert(text::trim(line) == line);
}

/// A line of a Brewfile gives the formula, cask or tap that it names, in quotes of
/// either kind or in none, with options behind it or without, and the lines give them
/// in their order.
pub proof fn brewfile_lines_are_read(
    before: Seq<Seq<char>>,
    word: Seq<char>,
    kind: BrewDepKind,
    name: Seq<char>,
    options: Seq<char>,
)
    requires
        is_directive(word, kind),
        is_brew_name(name),
        options.len() == 0 || options[0] == ',',
        options.len() > 0 ==> !text::is_whitespace(options.last()),
    ensures
        ({
            let front = parser::lines_deps(before);
            &&& parser::lines_deps(
                before.push(word + (seq!['"'] + name + (seq!['"'] + options))),
            ) == front.push((name, kind))
            &&& parser::lines_deps(
                before.push(word + (seq!['\''] + name + (seq!['\''] + options))),
            ) == front.push((name, kind))
            &&& parser::lines_deps(before.push(word + (name + options))) == front.push(
                (name, kind),
            )
        }),
{
    let front = parser::lines_deps(before);
    let double = seq!['"'] + name + (seq!['"'] + options);
    let single = seq!['\''] + name + (seq!['\''] + options);
    let plain = name + options;
    directive_is_read(word, kind, double);
    directive_is_read(word, kind, single);
    directive_is_read(word, kind, plain);
    assert(!text::is_whitespace(name[0]));
    assert(!text::is_whitespace(name[name.len() - 1]));
    quoted_name_is_read(name, options, '"');
    quoted_name_is_read(name, options, '\'');
    plain_name_is_read(name, options);
    let a = word + double;
    let b = word + single;
    let c = word + plain;
    assert(a.last() == double.last() && b.last() == single.last() && c.last() == plain.last());
    assert(!text::is_whitespace(double.last()) && !text::is_whitespace(single.last())
        && !text::is_whitespace(plain.last())) by {
        if options.len() > 0 {
            assert(double.last() == options.last() && single.last() == options.last()
                && plain.last() == options.last());
        } else {
            assert(double.last() == '"' && single.last() == '\'');
            assert(plain.last() == name[name.len() - 1]);
        }
    }
    assert(text::trim(double) == double && text::trim(single) == single && text::trim(plain)
        == plain) by {
        assert(double[0] == '"' && single[0] == '\'' && plain[0] == name[0]);
    }
    line_is_read(a, Some((name, kind)), before);
    line_is_read(b, Some((name, kind)), before);
    line_is_read(c, Some((name, kind)), before);
}

proof fn quoted_name_is_read(name: Seq<char>, options: Seq<char>, q: char)
    requires
        is_brew_name(name),
        q == '"' || q == '\'',
    ensures
        parser::quoted_name(seq![q] + name + (seq![q] + options)) == name,
{
    reveal_strlit("\"");
    reveal_strlit("'");
    let s = seq![q] + name + (seq![q] + options);
    let set = if q == '"' {
        "\""@
    } else {
        "'"@
    };
    assert(set[0] == q);
    assert(set.contains(q));
    assert(s[0] == q);
    let rest = name + (seq![q] + options);
    assert(s.skip(1) =~= rest);
    assert(rest[0] == name[0]);
    assert(!text::is_whitespace(name[0]) && name[0] != q);
    assert(!set.contains(name[0]));
    assert(text::trim_start_set(rest, set) == rest);
    assert(text::trim_start_set(s, set) == rest);
    assert(rest =~= name + seq![q] + options);
    assert(!name.contains(q)) by {
        assert forall|i: int| 0 <= i < name.len() implies name[i] != q by {
            assert(!text::is_whitespace(name[i]));
        }
    }
    text_laws::before_ends_at_first(name, q, options);
}

proof fn plain_name_is_read(name: Seq<char>, options: Seq<char>)
    requires
        is_brew_name(name),
        options.len() == 0 || options[0] == ',',
    ensures
        parser::quoted_name(name + options) == name,
{
    let s = name + options;
    assert(s[0] == name[0]);
    assert(!text::is_whitespace(name[0]) && name[0] != '"' && name[0] != '\'');
    assert(!name.contains(',')) by {
        assert forall|i: int| 0 <= i < name.len() implies name[i] != ',' by {
            assert(!text::is_whitespace(name[i]));
        }
    }
    if options.len() > 0 {
        let rest = options.skip(1);
        assert(s =~= name + seq![','] + rest);
        text_laws::before_ends_at_first(name, ',', rest);
    } else {
        assert(s =~= name);
        text_laws::before_ends_at_first(name, ',', options);
    }
    assert(text_laws::is_one_word(name));
    text_laws::words_are_between_spaces(name, ' ', Seq::empty());
    assert(seq![name][0] == name);
}

/// Blank lines, comments and lines of other words give nothing.
pub proof fn other_lines_give_nothing(before: Seq<Seq<char>>, line: Seq<char>)
    requires
        line.len() == 0 || (!text::is_whitespace(line[0]) && !text::is_whitespace(line.last())),
        line.len() == 0 || line[0] == '#' || (line[0] != 'b' && line[0] != 'c' && line[0] != 't'),
    ensures
        parser::lines_deps(before.push(line)) == parser::lines_deps(before),
{
    let all = before.push(line);
    assert(all.drop_last() =~= before && all.last() == line);
    if line.len() == 0 {
        assert(text::trim(line) == line);
    } else {
        assert(text::trim(line) == line);
        reveal_strlit("brew ");
        reveal_strlit("cask ");
        reveal_strlit("tap ");
        if line[0] != '#' {
            text_laws::no_prefix("brew "@, line, 0);
            text_laws::no_prefix("cask "@, line, 0);
            text_laws::no_prefix("tap "@, line, 0);
        }
    }
}

// ── Commands ────────────────────────────────────────────────────────────────
/// Each entry that is not there yet has one command, by its kind, in the order of the
/// file: taps are tapped, formulae installed, casks installed as casks.
pub proof fn missing_entries_have_commands(
    before: Seq<BrewDep>,
    d: BrewDep,
    taps: bool,
    there: Seq<Seq<char>>,
)
    ensures
        ({
            let front = installer::commands(before, taps, there);
            let all = installer::commands(before.push(d), taps, there);
            &&& there.contains(d.name@) ==> all == front
            &&& (d.kind is Tap) != taps ==> all == front
            &&& !there.contains(d.name@) && d.kind is Tap && taps ==> all == front.push(
                CommandModel { args: seq!["tap"@, d.name@], report: "tap:"@ + d.name@ },
            )
            &&& !there.contains(d.name@) && d.kind is Formula && !taps ==> all == front.push(
                CommandModel { args: seq!["install"@, d.name@], report: d.name@ },
            )
            &&& !there.contains(d.name@) && d.kind is Cask && !taps ==> all == front.push(
                CommandModel { args: seq!["install"@, "--cask"@, d.name@], report: d.name@ },
            )
        }),
{
    let all = before.push(d);
    assert(all.drop_last() =~= before && all.last() == d);
}

/// What was installed is reported for each command that succeeded, and for no other.
pub proof fn successes_are_reported(runs: Seq<CommandModel>, c: CommandModel, outcomes: Seq<bool>)
    requires
        outcomes.len() > runs.len(),
    ensures
        outcomes[runs.len() as int] ==> installer::successes(runs.push(c), outcomes)
            == installer::successes(runs, outcomes).push(c.report),
        !outcomes[runs.len() as int] ==> installer::successes(runs.push(c), outcomes)
            == installer::successes(runs, outcomes),
{
    let all = runs.push(c);
    assert(all.drop_last() =~= runs && all.last() == c);
}

// ── Places in bottles ───────────────────────────────────────────────────────
/// A place in the cellar that a bottle names is in the store, in the directory of the
/// formula and its version.
pub proof fn cellar_places_are_in_the_store(
    name: Seq<char>,
    version: Seq<char>,
    file: Seq<char>,
    store_root: Seq<char>,
    dirs: Seq<Seq<char>>,
)
    requires
        !name.contains('/'),
        !version.contains('/'),
        file.len() > 0,
    ensures
        client::resolved_path(
            "@@HOMEBREW_CELLAR@@/"@ + (name + seq!['/'] + (version + seq!['/'] + file)),
            store_root,
            dirs,
        ) == Some(paths::joined(paths::joined(store_root, name + "-"@ + version), file)),
        client::resolved_path(
            "@@HOMEBREW_CELLAR@@/"@ + (name + seq!['/'] + version),
            store_root,
            dirs,
        ) == Some(paths::joined(store_root, name + "-"@ + version)),
{
    let more = version + seq!['/'] + file;
    text_laws::joined_ends("@@HOMEBREW_CELLAR@@/"@, name + seq!['/'] + more);
    text_laws::joined_ends("@@HOMEBREW_CELLAR@@/"@, name + seq!['/'] + version);
    text_laws::before_ends_at_first(name, '/', more);
    text_laws::before_ends_at_first(name, '/', version);
    text_laws::before_ends_at_first(version, '/', file);
}

/// A place below `opt` is in the directory of the formula's version that is in the
/// store: the first directory of the formula whose version starts with a digit.
pub proof fn opt_places_are_in_the_store(
    name: Seq<char>,
    version: Seq<char>,
    file: Seq<char>,
    store_root: Seq<char>,
    before: Seq<Seq<char>>,
    behind: Seq<Seq<char>>,
)
    requires
        !name.contains('/'),
        file.len() > 0,
        version.len() > 0,
        '0' <= version[0] <= '9',
        forall|i: int|
            0 <= i < before.len() ==> !(name + "-"@).is_prefix_of(#[trigger] before[i]),
    ensures
        client::resolved_path(
            "@@HOMEBREW_PREFIX@@/opt/"@ + (name + seq!['/'] + file),
            store_root,
            before + seq![name + "-"@ + version] + behind,
        ) == Some(paths::joined(paths::joined(store_root, name + "-"@ + version), file)),
        client::resolved_path(
            "@@HOMEBREW_PREFIX@@/opt/"@ + (name + seq!['/'] + file),
            store_root,
            before,
        ) is None,
{
    reveal_strlit("@@HOMEBREW_PREFIX@@/opt/");
    reveal_strlit("@@HOMEBREW_CELLAR@@/");
    let rest = name + seq!['/'] + file;
    let s = "@@HOMEBREW_PREFIX@@/opt/"@ + rest;
    assert(s[11] == "@@HOMEBREW_PREFIX@@/opt/"@[11]);
    text_laws::no_prefix("@@HOMEBREW_CELLAR@@/"@, s, 11);
    text_laws::joined_ends("@@HOMEBREW_PREFIX@@/opt/"@, rest);
    text_laws::before_ends_at_first(name, '/', file);
    version_is_found(name, version, before, behind, true);
    version_is_found(name, version, before, behind, false);
}

proof fn version_is_found(
    name: Seq<char>,
    version: Seq<char>,
    before: Seq<Seq<char>>,
    behind: Seq<Seq<char>>,
    numbered: bool,
)
    requires
        version.len() > 0,
        '0' <= version[0] <= '9',
        forall|i: int|
            0 <= i < before.len() ==> !(name + "-"@).is_prefix_of(#[trigger] before[i]),
    ensures
        client::first_version(before + seq![name + "-"@ + version] + behind, name, numbered) == Some(
            version,
        ),
        client::first_version(before, name, numbered) is None,
    decreases before.len(),
{
    let dir = name + "-"@ + version;
    let all = before + seq![dir] + behind;
    if before.len() == 0 {
        assert(all[0] == dir);
        text_laws::joined_ends(name + "-"@, version);
    } else {
        let rest = before.skip(1);
        assert(!(name + "-"@).is_prefix_of(before[0]));
        assert forall|i: int| 0 <= i < rest.len() implies !(name + "-"@).is_prefix_of(
            #[trigger] rest[i],
        ) by {
            assert(rest[i] == before[i + 1]);
        }
        version_is_found(name, version, rest, behind, numbered);
        assert(all[0] == before[0]);
        assert(all.skip(1) =~= rest + seq![dir] + behind);
    }
}

/// Each library of a bottle that is in the store is changed from the place that the
/// bottle names to its place there, in the order of the libraries; the others stay.
pub proof fn libraries_are_changed(
    before: Seq<Seq<char>>,
    dep: Seq<char>,
    store_root: Seq<char>,
    dirs: Seq<Seq<char>>,
)
    ensures
        ({
            let front = client::change_args(before, store_root, dirs);
            let all = client::change_args(before.push(dep), store_root, dirs);
            match client::resolved_path(dep, store_root, dirs) {
                Some(path) => all == front.push("-change"@).push(dep).push(path),
                None => all == front,
            }
        }),
{
    let all = before.push(dep);
    assert(all.drop_last() =~= before && all.last() == dep);
    let front = client::change_args(before, store_root, dirs);
    if let Some(path) = client::resolved_path(dep, store_root, dirs) {
        assert(front + seq!["-change"@, dep, path] =~= front.push("-change"@).push(dep).push(path));
    }
}

// ── Formulae ────────────────────────────────────────────────────────────────
/// The formulae of a `Brewfile` are looked up in its order, and its casks are not.
pub proof fn only_formulae_are_looked_up(before: Seq<BrewDep>, d: BrewDep)
    ensures
        d.kind is Formula ==> resolver::formulae(before.push(d)) == resolver::formulae(
            before,
        ).push(d.name@),
        !(d.kind is Formula) ==> resolver::formulae(before.push(d)) == resolver::formulae(before),
        resolver::formulae(Seq::empty()) == Seq::<Seq<char>>::empty(),
{
    assert(before.push(d).drop_last() =~= before);
}

proof fn texts_are_items(texts: Seq<Seq<char>>)
    ensures
        client::text_items(Seq::new(texts.len(), |i: int| DocModel::Text(texts[i]))) == texts,
    decreases texts.len(),
{
    let items = Seq::new(texts.len(), |i: int| DocModel::Text(texts[i]));
    if texts.len() == 0 {
        assert(texts =~= Seq::<Seq<char>>::empty());
    } else {
        let front = texts.drop_last();
        texts_are_items(front);
        assert(items.drop_last() =~= Seq::new(front.len(), |i: int| DocModel::Text(front[i])));
        assert(front.push(texts.last()) =~= texts);
    }
}

/// What is read of a formula's description: its stable version, the names of all it
/// depends on, whether it is keg-only, and the address and the checksum of the bottle
/// for the platform. A description without a stable version, or without a bottle for
/// the platform, is refused.
pub proof fn formula_is_read(
    fields: Seq<(Seq<char>, DocModel)>,
    versions: Seq<(Seq<char>, DocModel)>,
    bottle: Seq<(Seq<char>, DocModel)>,
    stable: Seq<(Seq<char>, DocModel)>,
    files: DocModel,
    deps: Seq<Seq<char>>,
    keg_only: bool,
    version: Seq<char>,
    name: Seq<char>,
    tag: Seq<char>,
    r: Result<client::FormulaInfo, client::FormulaError>,
)
    requires
        doc::lookup(fields, "versions"@) == Some(DocModel::Table(versions)),
        doc::lookup(fields, "dependencies"@) == Some(
            DocModel::List(Seq::new(deps.len(), |i: int| DocModel::Text(deps[i]))),
        ),
        doc::lookup(fields, "keg_only"@) == Some(DocModel::Bool(keg_only)),
        doc::lookup(fields, "bottle"@) == Some(DocModel::Table(bottle)),
        doc::lookup(bottle, "stable"@) == Some(DocModel::Table(stable)),
        doc::lookup(stable, "files"@) == Some(files),
        client::describes(DocModel::Table(fields), name, tag, r),
    ensures
        doc::lookup(versions, "stable"@) is None ==> r == Err::<
            client::FormulaInfo,
            client::FormulaError,
        >(client::FormulaError::NoStableVersion),
        doc::lookup(versions, "stable"@) == Some(DocModel::Text(version)) ==> {
            match client::chosen_bottle(Some(files), tag) {
                Some((url, sum)) => {
                    &&& r matches Ok(f)
                    &&& f.name@ == name
                    &&& f.version@ == version
                    &&& f.keg_only == keg_only
                    &&& text::views(f.dependencies@) == deps
                    &&& f.bottle_url@ == url
                    &&& f.bottle_sha256@ == sum
                },
                None => r matches Err(client::FormulaError::NoBottle { name: n, tag: t }) && n@
                    == name && t@ == tag,
            }
        },
{
    texts_are_items(deps);
}

// ── Libraries ───────────────────────────────────────────────────────────────
proof fn space_in_front(pad: Seq<char>, s: Seq<char>)
    requires
        text_laws::is_blank(pad),
        s.len() > 0,
        !text::is_whitespace(s[0]),
        !text::is_whitespace(s.last()),
    ensures
        text::trim(pad + s) == s,
    decreases pad.len(),
{
    if pad.len() == 0 {
        assert(pad + s =~= s);
    } else {
        let rest = pad.skip(1);
        assert(text::is_whitespace(pad[0]));
        assert forall|i: int| 0 <= i < rest.len() implies text::is_whitespace(#[trigger] rest[i]) by {
            assert(rest[i] == pad[i + 1]);
        }
        space_in_front(rest, s);
        assert((pad + s).skip(1) =~= rest + s);
    }
}

/// A line that lists a library gives its place without what is said of its version,
/// where the place is one that is to be filled in; another line gives nothing. The first
/// line names the file itself, and each other line gives at most one place, in order.
pub proof fn listed_libraries_are_read(
    pad: Seq<char>,
    place: Seq<char>,
    note: Seq<char>,
    before: Seq<Seq<char>>,
    line: Seq<char>,
)
    requires
        text_laws::is_blank(pad),
        place.len() > 0,
        !text::is_whitespace(place[0]),
        !text::is_whitespace(place.last()),
        !place.contains('('),
        note.len() > 0,
        !text::is_whitespace(note.last()),
        before.len() > 0,
    ensures
        "@@HOMEBREW"@.is_prefix_of(place) ==> client::dep_in_line(
            pad + (place + " (compatibility"@ + note),
        ) == Some(place),
        !"@@HOMEBREW"@.is_prefix_of(place) ==> client::dep_in_line(pad + place) is None,
        client::dep_in_line(line) is None ==> client::deps_in_lines(before.push(line))
            == client::deps_in_lines(before),
        client::dep_in_line(line) == Some(place) ==> client::deps_in_lines(before.push(line))
            == client::deps_in_lines(before).push(place),
        client::deps_in_lines(seq![line]) == Seq::<Seq<char>>::empty(),
{
    let mark = " (compatibility"@;
    reveal_strlit(" (compatibility");
    let whole = place + mark + note;
    assert(whole[0] == place[0]);
    assert(whole.last() == note.last());
    space_in_front(pad, whole);
    space_in_front(pad, place);
    assert(before.push(line).drop_last() =~= before);
    if "@@HOMEBREW"@.is_prefix_of(place) {
        assert("@@HOMEBREW"@.is_prefix_of(whole)) by {
            assert(whole.take("@@HOMEBREW"@.len() as int) =~= place.take(
                "@@HOMEBREW"@.len() as int,
            ));
            assert("@@HOMEBREW"@ =~= whole.subrange(0, "@@HOMEBREW"@.len() as int)) by {
                assert("@@HOMEBREW"@ =~= place.subrange(0, "@@HOMEBREW"@.len() as int));
            }
        }
        let n = place.len() as int;
        text_laws::find_is_first(whole, mark);
        assert(whole.subrange(n, n + mark.len()) =~= mark);
        let k = text::find(whole, mark)->0;
        assert(text::find(whole, mark) is Some);
        assert(k <= n);
        if k < n {
            assert(whole.subrange(k, k + mark.len())[1] == mark[1]);
            assert(whole[k + 1] == '(');
            if k + 1 < n {
                assert(place[k + 1] == '(');
            } else {
                assert(whole[k + 1] == mark[0]);
            }
            assert(false);
        }
        assert(whole.take(n) =~= place);
        assert(Seq::<char>::empty() + place =~= place);
        space_in_front(Seq::empty(), place);
    }
}

/// The commands for a file change its libraries, then its own name where it has one
/// that is in the store and it is a library, and end with the file. Nothing is done
/// where no library is changed.
pub proof fn commands_end_with_file(
    dirs_of: Seq<Seq<char>>,
    stem: Seq<char>,
    deps: Seq<Seq<char>>,
    id: Seq<char>,
    store_root: Seq<char>,
    dirs: Seq<Seq<char>>,
)
    requires
        path_laws::are_names(dirs_of),
        stem.len() > 0,
        !stem.contains('/'),
    ensures
        ({
            let library = text::join(dirs_of.push(stem + seq!['.'] + "dylib"@), "/"@);
            let object = text::join(dirs_of.push(stem + seq!['.'] + "so"@), "/"@);
            let changes = client::change_args(deps, store_root, dirs);
            &&& changes.len() == 0 ==> client::fixup_args(library, deps, Some(id), store_root, dirs)
                is None
            &&& changes.len() > 0 ==> {
                &&& client::fixup_args(library, deps, None, store_root, dirs) == Some(
                    changes.push(library),
                )
                &&& client::fixup_args(object, deps, Some(id), store_root, dirs) == Some(
                    changes.push(object),
                )
                &&& client::resolved_path(id, store_root, dirs) matches Some(path)
                    ==> client::fixup_args(library, deps, Some(id), store_root, dirs) == Some(
                    changes.push("-id"@).push(path).push(library),
                )
            }
        }),
{
    reveal_strlit("dylib");
    reveal_strlit("so");
    reveal_strlit("..");
    let a = stem + seq!['.'] + "dylib"@;
    let b = stem + seq!['.'] + "so"@;
    let library = text::join(dirs_of.push(a), "/"@);
    let object = text::join(dirs_of.push(b), "/"@);
    assert(a.len() > 2 && b.len() > 2);
    path_laws::extension_is_behind_last_point(dirs_of, stem, "dylib"@);
    path_laws::extension_is_behind_last_point(dirs_of, stem, "so"@);
    assert("dylib"@.len() != "so"@.len());
    let changes = client::change_args(deps, store_root, dirs);
    assert(changes + Seq::<Seq<char>>::empty() + seq![library] =~= changes.push(library));
    assert(changes + Seq::<Seq<char>>::empty() + seq![object] =~= changes.push(object));
    if let Some(path) = client::resolved_path(id, store_root, dirs) {
        assert(changes + seq!["-id"@, path] + seq![library] =~= changes.push("-id"@).push(
            path,
        ).push(library));
    }
}

/// The names that are listed as installed are those of the lines, without the space round
/// them; empty lines are none.
pub proof fn installed_names_are_read(before: Seq<Seq<char>>, line: Seq<char>)
    ensures
        text::trim(line).len() > 0 ==> installer::names_among(before.push(line))
            == installer::names_among(before).push(text::trim(line)),
        text::trim(line).len() == 0 ==> installer::names_among(before.push(line))
            == installer::names_among(before),
        installer::names_among(Seq::empty()) == Seq::<Seq<char>>::empty(),
{
    assert(before.push(line).drop_last() =~= before);
}

/// A bottle is stored under its name and version in the part of the store for bottles.
pub proof fn bottles_are_stored(name: Seq<char>, version: Seq<char>)
    requires
        name.len() > 0,
        name[0] != '/',
    ensures
        resolver::bottle_path(name, version) == paths::joined("brew"@, name + "-"@ + version),
{
    reveal_strlit("brew");
    reveal_strlit("brew/");
    reveal_strlit("/");
    assert("brew"@.last() == 'w');
    assert("brew/"@ =~= "brew"@ + "/"@);
    assert((name + "-"@ + version)[0] == name[0]);
    assert(resolver::bottle_path(name, version) =~= "brew"@ + "/"@ + (name + "-"@ + version));
}

} // verus!

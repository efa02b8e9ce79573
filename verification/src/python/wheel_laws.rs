//! What holds of wheels by their names: which platforms and interpreters a wheel runs
//! on, stated over the tags that wheels and platforms have.
use vstd::prelude::*;

use crate::python::wheel::OsFamily;
use crate::python::wheel::PypiFileEntry;
use crate::python::wheel;
use crate::text;
use crate::text_laws;

verus! {

// ── Names of wheels ─────────────────────────────────────────────────────────
/// The name of a wheel: what it is of, then the interpreters, the interfaces and the
/// platforms that it is for.
pub open spec fn wheel_name(
    of: Seq<char>,
    py: Seq<char>,
    abi: Seq<char>,
    platform: Seq<char>,
) -> Seq<char> {
    of + "-"@ + py + "-"@ + abi + "-"@ + platform + ".whl"@
}

/// A tag by itself, which is no set of tags.
pub open spec fn is_single(tag: Seq<char>) -> bool {
    !tag.contains('-') && !tag.contains('.')
}

proof fn none_of(s: Seq<char>, c: char)
    requires
        !s.contains(c),
    ensures
        forall|i: int| 0 <= i < s.len() ==> s[i] != c,
{
    assert forall|i: int| 0 <= i < s.len() implies s[i] != c by {
        assert(s.contains(s[i]));
    }
}

/// The tags of a wheel are the last three parts of its name between hyphens, whatever
/// the name starts with: so with a build number or without.
pub proof fn tags_are_last(of: Seq<char>, py: Seq<char>, abi: Seq<char>, platform: Seq<char>)
    requires
        !py.contains('-'),
        !abi.contains('-'),
        !platform.contains('-'),
    ensures
        wheel::tag_fields(wheel_name(of, py, abi, platform)) == Some((py, abi, platform)),
{
    reveal_strlit("-");
    reveal_strlit(".whl");
    let hyphen = seq!['-'];
    assert("-"@ =~= hyphen);
    let name = wheel_name(of, py, abi, platform);
    let stem = of + hyphen + py + hyphen + abi + hyphen + platform;
    assert(name =~= stem + ".whl"@);
    assert(name.subrange(name.len() - 4, name.len() as int) =~= ".whl"@);
    assert(".whl"@.is_suffix_of(name));
    assert(name.take(name.len() - 4) =~= stem);
    none_of(py, '-');
    none_of(abi, '-');
    none_of(platform, '-');
    text_laws::split_last(of, '-', py);
    text_laws::split_last(of + hyphen + py, '-', abi);
    text_laws::split_last(of + hyphen + py + hyphen + abi, '-', platform);
    text_laws::split_is_joined(of, '-');
    let parts = text::split(of, '-').push(py).push(abi).push(platform);
    assert(text::split(stem, '-') == parts);
    let n = parts.len() as int;
    assert(parts[n - 3] == py && parts[n - 2] == abi && parts[n - 1] == platform);
}

/// A name that does not end in `.whl` is no wheel's and has no score.
pub proof fn other_files_have_no_score(
    name: Seq<char>,
    target: Seq<char>,
    platform_tag: Seq<char>,
    arch_suffix: Seq<char>,
)
    requires
        !".whl"@.is_suffix_of(name),
    ensures
        wheel::wheel_score(name, target, platform_tag, arch_suffix) is None,
{
}

proof fn single_table(py: Seq<char>, abi: Seq<char>, target: Seq<char>, pure: bool)
    requires
        is_single(py),
        is_single(abi),
    ensures
        wheel::table_score(text::split(py, '.'), text::split(abi, '.'), target, pure)
            == wheel::pair_score(py, abi, target, pure),
{
    text_laws::split_single(py, '.');
    text_laws::split_single(abi, '.');
    assert(seq![abi].drop_last() =~= Seq::<Seq<char>>::empty());
    assert(seq![py].drop_last() =~= Seq::<Seq<char>>::empty());
    assert(wheel::row_score(py, Seq::empty(), target, pure) is None);
    assert(wheel::row_score(py, seq![abi], target, pure) == wheel::pair_score(
        py,
        abi,
        target,
        pure,
    ));
    assert(wheel::table_score(Seq::empty(), seq![abi], target, pure) is None);
}

/// A wheel that is built for the interpreter itself has the highest score where its
/// platform fits, and none where it does not.
proof fn native_score(
    of: Seq<char>,
    target: Seq<char>,
    tag: Seq<char>,
    platform_tag: Seq<char>,
    arch_suffix: Seq<char>,
)
    requires
        is_single(target),
        is_single(tag),
    ensures
        wheel::wheel_score(
            wheel_name(of, target, target, tag),
            target,
            platform_tag,
            arch_suffix,
        ) == (if wheel::platform_fits(
            wheel::family(platform_tag),
            wheel::target_arch(platform_tag, arch_suffix),
            tag,
        ) {
            Some(100int)
        } else {
            None
        }),
{
    tags_are_last(of, target, target, tag);
    text_laws::split_single(tag, '.');
    let platforms = text::split(tag, '.');
    assert(platforms[0] == tag);
    single_table(target, target, target, platforms.contains("any"@));
    assert(target.is_prefix_of(target)) by {
        assert(target.subrange(0, target.len() as int) =~= target);
    }
    if wheel::platform_fits(
        wheel::family(platform_tag),
        wheel::target_arch(platform_tag, arch_suffix),
        tag,
    ) {
        assert(wheel::any_platform_fits(
            platforms,
            wheel::family(platform_tag),
            wheel::target_arch(platform_tag, arch_suffix),
        ));
    }
}

// ── Architectures in tags ───────────────────────────────────────────────────

proof fn ends_in_x86_64(front: Seq<char>)
    requires
        front.len() > 0,
        front[0] == 'm' || front[0] == 'l',
    ensures
        wheel::arch(front + "_x86_64"@) == "x86_64"@,
{
    let s = front + "_x86_64"@;
    reveal_strlit("any");
    reveal_strlit("win32");
    reveal_strlit("win_");
    reveal_strlit("_x86_64");
    reveal_strlit("x86_64");
    assert("any"@[0] == 'a' && "win32"@[0] == 'w' && s[0] == front[0]);
    assert(!"win_"@.is_prefix_of(s)) by {
        if "win_"@.is_prefix_of(s) {
            assert(s.subrange(0, 4)[0] == s[0]);
        }
    }
    assert(s.subrange(s.len() - 6, s.len() as int) =~= "x86_64"@);
    assert(wheel::arch_suffix_of(s) == "x86_64"@);
    reveal_strlit("amd64");
    reveal_strlit("x86_64");
    reveal_strlit("arm64");
    reveal_strlit("aarch64");
    reveal_strlit("x86");
    reveal_strlit("i686");
    assert("amd64"@[1] == 'm' && "x86_64"@[1] == '8' && "arm64"@[1] == 'r' && "aarch64"@[1] == 'a'
        && "i686"@[0] == 'i' && "x86"@.len() == 3);
}

proof fn ends_in_i686(front: Seq<char>)
    requires
        front.len() > 0,
        front[0] == 'm' || front[0] == 'l',
    ensures
        wheel::arch(front + "_i686"@) == "x86"@,
{
    let s = front + "_i686"@;
    reveal_strlit("any");
    reveal_strlit("win32");
    reveal_strlit("win_");
    reveal_strlit("_i686");
    reveal_strlit("x86_64");
    reveal_strlit("i686");
    assert("any"@[0] == 'a' && "win32"@[0] == 'w' && s[0] == front[0]);
    assert(!"win_"@.is_prefix_of(s)) by {
        if "win_"@.is_prefix_of(s) {
            assert(s.subrange(0, 4)[0] == s[0]);
        }
    }
    text_laws::no_suffix("x86_64"@, s, 1);
    assert(s.subrange(s.len() - 4, s.len() as int) =~= "i686"@);
    assert(wheel::arch_suffix_of(s) == "i686"@);
    reveal_strlit("amd64");
    reveal_strlit("x86_64");
    reveal_strlit("arm64");
    reveal_strlit("aarch64");
    reveal_strlit("x86");
    reveal_strlit("i686");
    assert("amd64"@[1] == 'm' && "x86_64"@[1] == '8' && "arm64"@[1] == 'r' && "aarch64"@[1] == 'a'
        && "i686"@[0] == 'i' && "x86"@.len() == 3);
}

proof fn ends_in_aarch64(front: Seq<char>)
    requires
        front.len() > 0,
        front[0] == 'm' || front[0] == 'l',
    ensures
        wheel::arch(front + "_aarch64"@) == "aarch64"@,
{
    let s = front + "_aarch64"@;
    reveal_strlit("any");
    reveal_strlit("win32");
    reveal_strlit("win_");
    reveal_strlit("_aarch64");
    reveal_strlit("x86_64");
    reveal_strlit("i686");
    reveal_strlit("aarch64");
    assert("any"@[0] == 'a' && "win32"@[0] == 'w' && s[0] == front[0]);
    assert(!"win_"@.is_prefix_of(s)) by {
        if "win_"@.is_prefix_of(s) {
            assert(s.subrange(0, 4)[0] == s[0]);
        }
    }
    text_laws::no_suffix("x86_64"@, s, 3);
    text_laws::no_suffix("i686"@, s, 1);
    assert(s.subrange(s.len() - 7, s.len() as int) =~= "aarch64"@);
    assert(wheel::arch_suffix_of(s) == "aarch64"@);
    reveal_strlit("amd64");
    reveal_strlit("x86_64");
    reveal_strlit("arm64");
    reveal_strlit("aarch64");
    reveal_strlit("x86");
    reveal_strlit("i686");
    assert("amd64"@[1] == 'm' && "x86_64"@[1] == '8' && "arm64"@[1] == 'r' && "aarch64"@[1] == 'a'
        && "i686"@[0] == 'i' && "x86"@.len() == 3);
}

proof fn ends_in_arm64(front: Seq<char>)
    requires
        front.len() > 0,
        front[0] == 'm' || front[0] == 'l',
    ensures
        wheel::arch(front + "_arm64"@) == "aarch64"@,
{
    let s = front + "_arm64"@;
    reveal_strlit("any");
    reveal_strlit("win32");
    reveal_strlit("win_");
    reveal_strlit("_arm64");
    reveal_strlit("x86_64");
    reveal_strlit("i686");
    reveal_strlit("aarch64");
    reveal_strlit("arm64");
    assert("any"@[0] == 'a' && "win32"@[0] == 'w' && s[0] == front[0]);
    assert(!"win_"@.is_prefix_of(s)) by {
        if "win_"@.is_prefix_of(s) {
            assert(s.subrange(0, 4)[0] == s[0]);
        }
    }
    text_laws::no_suffix("x86_64"@, s, 3);
    text_laws::no_suffix("i686"@, s, 1);
    text_laws::no_suffix("aarch64"@, s, 3);
    assert(s.subrange(s.len() - 5, s.len() as int) =~= "arm64"@);
    assert(wheel::arch_suffix_of(s) == "arm64"@);
    reveal_strlit("amd64");
    reveal_strlit("x86_64");
    reveal_strlit("arm64");
    reveal_strlit("aarch64");
    reveal_strlit("x86");
    reveal_strlit("i686");
    assert("amd64"@[1] == 'm' && "x86_64"@[1] == '8' && "arm64"@[1] == 'r' && "aarch64"@[1] == 'a'
        && "i686"@[0] == 'i' && "x86"@.len() == 3);
}

proof fn ends_in_armv7l(front: Seq<char>)
    requires
        front.len() > 0,
        front[0] == 'm' || front[0] == 'l',
    ensures
        wheel::arch(front + "_armv7l"@) == "armv7l"@,
{
    let s = front + "_armv7l"@;
    reveal_strlit("any");
    reveal_strlit("win32");
    reveal_strlit("win_");
    reveal_strlit("_armv7l");
    reveal_strlit("x86_64");
    reveal_strlit("i686");
    reveal_strlit("aarch64");
    reveal_strlit("arm64");
    reveal_strlit("armv7l");
    assert("any"@[0] == 'a' && "win32"@[0] == 'w' && s[0] == front[0]);
    assert(!"win_"@.is_prefix_of(s)) by {
        if "win_"@.is_prefix_of(s) {
            assert(s.subrange(0, 4)[0] == s[0]);
        }
    }
    text_laws::no_suffix("x86_64"@, s, 1);
    text_laws::no_suffix("i686"@, s, 1);
    text_laws::no_suffix("aarch64"@, s, 1);
    text_laws::no_suffix("arm64"@, s, 1);
    assert(s.subrange(s.len() - 6, s.len() as int) =~= "armv7l"@);
    assert(wheel::arch_suffix_of(s) == "armv7l"@);
    reveal_strlit("amd64");
    reveal_strlit("x86_64");
    reveal_strlit("arm64");
    reveal_strlit("aarch64");
    reveal_strlit("x86");
    reveal_strlit("i686");
    reveal_strlit("win32");
    assert("amd64"@[1] == 'm' && "x86_64"@[1] == '8' && "arm64"@[1] == 'r' && "aarch64"@[1] == 'a'
        && "i686"@[1] == '6' && "x86"@[1] == '8' && "win32"@[1] == 'i');
    assert("arm64"@.len() == 5 && "armv7l"@.len() == 6 && "armv7l"@[1] == 'r');
}

proof fn ends_in_ppc64le(front: Seq<char>)
    requires
        front.len() > 0,
        front[0] == 'm' || front[0] == 'l',
    ensures
        wheel::arch(front + "_ppc64le"@) == "ppc64le"@,
{
    let s = front + "_ppc64le"@;
    reveal_strlit("any");
    reveal_strlit("win32");
    reveal_strlit("win_");
    reveal_strlit("_ppc64le");
    reveal_strlit("x86_64");
    reveal_strlit("i686");
    reveal_strlit("aarch64");
    reveal_strlit("arm64");
    reveal_strlit("armv7l");
    reveal_strlit("ppc64le");
    assert("any"@[0] == 'a' && "win32"@[0] == 'w' && s[0] == front[0]);
    assert(!"win_"@.is_prefix_of(s)) by {
        if "win_"@.is_prefix_of(s) {
            assert(s.subrange(0, 4)[0] == s[0]);
        }
    }
    text_laws::no_suffix("x86_64"@, s, 1);
    text_laws::no_suffix("i686"@, s, 1);
    text_laws::no_suffix("aarch64"@, s, 1);
    text_laws::no_suffix("arm64"@, s, 1);
    text_laws::no_suffix("armv7l"@, s, 1);
    assert(s.subrange(s.len() - 7, s.len() as int) =~= "ppc64le"@);
    assert(wheel::arch_suffix_of(s) == "ppc64le"@);
    reveal_strlit("amd64");
    reveal_strlit("x86_64");
    reveal_strlit("arm64");
    reveal_strlit("aarch64");
    reveal_strlit("x86");
    reveal_strlit("i686");
    reveal_strlit("win32");
    assert("amd64"@[1] == 'm' && "x86_64"@[1] == '8' && "arm64"@[1] == 'r' && "aarch64"@[1] == 'a'
        && "i686"@[1] == '6' && "x86"@[1] == '8' && "win32"@[1] == 'i');
    assert("arm64"@.len() == 5 && "ppc64le"@.len() == 7 && "ppc64le"@[1] == 'p');
}

proof fn ends_in_ppc64(front: Seq<char>)
    requires
        front.len() > 0,
        front[0] == 'm' || front[0] == 'l',
    ensures
        wheel::arch(front + "_ppc64"@) == "ppc64"@,
{
    let s = front + "_ppc64"@;
    reveal_strlit("any");
    reveal_strlit("win32");
    reveal_strlit("win_");
    reveal_strlit("_ppc64");
    reveal_strlit("x86_64");
    reveal_strlit("i686");
    reveal_strlit("aarch64");
    reveal_strlit("arm64");
    reveal_strlit("armv7l");
    reveal_strlit("ppc64le");
    reveal_strlit("ppc64");
    assert("any"@[0] == 'a' && "win32"@[0] == 'w' && s[0] == front[0]);
    assert(!"win_"@.is_prefix_of(s)) by {
        if "win_"@.is_prefix_of(s) {
            assert(s.subrange(0, 4)[0] == s[0]);
        }
    }
    text_laws::no_suffix("x86_64"@, s, 3);
    text_laws::no_suffix("i686"@, s, 1);
    text_laws::no_suffix("aarch64"@, s, 3);
    text_laws::no_suffix("arm64"@, s, 3);
    text_laws::no_suffix("armv7l"@, s, 1);
    text_laws::no_suffix("ppc64le"@, s, 1);
    assert(s.subrange(s.len() - 5, s.len() as int) =~= "ppc64"@);
    assert(wheel::arch_suffix_of(s) == "ppc64"@);
    reveal_strlit("amd64");
    reveal_strlit("x86_64");
    reveal_strlit("arm64");
    reveal_strlit("aarch64");
    reveal_strlit("x86");
    reveal_strlit("i686");
    reveal_strlit("win32");
    assert("amd64"@[1] == 'm' && "x86_64"@[1] == '8' && "arm64"@[1] == 'r' && "aarch64"@[1] == 'a'
        && "i686"@[1] == '6' && "x86"@[1] == '8' && "win32"@[1] == 'i');
    assert("arm64"@.len() == 5 && "ppc64"@.len() == 5 && "ppc64"@[1] == 'p');
}

proof fn ends_in_s390x(front: Seq<char>)
    requires
        front.len() > 0,
        front[0] == 'm' || front[0] == 'l',
    ensures
        wheel::arch(front + "_s390x"@) == "s390x"@,
{
    let s = front + "_s390x"@;
    reveal_strlit("any");
    reveal_strlit("win32");
    reveal_strlit("win_");
    reveal_strlit("_s390x");
    reveal_strlit("x86_64");
    reveal_strlit("i686");
    reveal_strlit("aarch64");
    reveal_strlit("arm64");
    reveal_strlit("armv7l");
    reveal_strlit("ppc64le");
    reveal_strlit("ppc64");
    reveal_strlit("s390x");
    assert("any"@[0] == 'a' && "win32"@[0] == 'w' && s[0] == front[0]);
    assert(!"win_"@.is_prefix_of(s)) by {
        if "win_"@.is_prefix_of(s) {
            assert(s.subrange(0, 4)[0] == s[0]);
        }
    }
    text_laws::no_suffix("x86_64"@, s, 1);
    text_laws::no_suffix("i686"@, s, 1);
    text_laws::no_suffix("aarch64"@, s, 1);
    text_laws::no_suffix("arm64"@, s, 1);
    text_laws::no_suffix("armv7l"@, s, 1);
    text_laws::no_suffix("ppc64le"@, s, 1);
    text_laws::no_suffix("ppc64"@, s, 1);
    assert(s.subrange(s.len() - 5, s.len() as int) =~= "s390x"@);
    assert(wheel::arch_suffix_of(s) == "s390x"@);
    reveal_strlit("amd64");
    reveal_strlit("x86_64");
    reveal_strlit("arm64");
    reveal_strlit("aarch64");
    reveal_strlit("x86");
    reveal_strlit("i686");
    reveal_strlit("win32");
    assert("amd64"@[1] == 'm' && "x86_64"@[1] == '8' && "arm64"@[1] == 'r' && "aarch64"@[1] == 'a'
        && "i686"@[1] == '6' && "x86"@[1] == '8' && "win32"@[1] == 'i');
    assert("arm64"@.len() == 5 && "s390x"@.len() == 5 && "s390x"@[1] == '3');
}

proof fn ends_in_universal2(front: Seq<char>)
    requires
        front.len() > 0,
        front[0] == 'm' || front[0] == 'l',
    ensures
        wheel::arch(front + "_universal2"@) == "universal2"@,
{
    let s = front + "_universal2"@;
    reveal_strlit("any");
    reveal_strlit("win32");
    reveal_strlit("win_");
    reveal_strlit("_universal2");
    reveal_strlit("x86_64");
    reveal_strlit("i686");
    reveal_strlit("aarch64");
    reveal_strlit("arm64");
    reveal_strlit("armv7l");
    reveal_strlit("ppc64le");
    reveal_strlit("ppc64");
    reveal_strlit("s390x");
    reveal_strlit("universal2");
    assert("any"@[0] == 'a' && "win32"@[0] == 'w' && s[0] == front[0]);
    assert(!"win_"@.is_prefix_of(s)) by {
        if "win_"@.is_prefix_of(s) {
            assert(s.subrange(0, 4)[0] == s[0]);
        }
    }
    text_laws::no_suffix("x86_64"@, s, 1);
    text_laws::no_suffix("i686"@, s, 1);
    text_laws::no_suffix("aarch64"@, s, 1);
    text_laws::no_suffix("arm64"@, s, 1);
    text_laws::no_suffix("armv7l"@, s, 1);
    text_laws::no_suffix("ppc64le"@, s, 1);
    text_laws::no_suffix("ppc64"@, s, 1);
    text_laws::no_suffix("s390x"@, s, 1);
    assert(s.subrange(s.len() - 10, s.len() as int) =~= "universal2"@);
    assert(wheel::arch_suffix_of(s) == "universal2"@);
    reveal_strlit("amd64");
    reveal_strlit("x86_64");
    reveal_strlit("arm64");
    reveal_strlit("aarch64");
    reveal_strlit("x86");
    reveal_strlit("i686");
    reveal_strlit("win32");
    assert("amd64"@[1] == 'm' && "x86_64"@[1] == '8' && "arm64"@[1] == 'r' && "aarch64"@[1] == 'a'
        && "i686"@[1] == '6' && "x86"@[1] == '8' && "win32"@[1] == 'i');
    assert("arm64"@.len() == 5 && "universal2"@.len() == 10 && "universal2"@[1] == 'n');
}

proof fn ends_in_universal(front: Seq<char>)
    requires
        front.len() > 0,
        front[0] == 'm' || front[0] == 'l',
    ensures
        wheel::arch(front + "_universal"@) == "universal"@,
{
    let s = front + "_universal"@;
    reveal_strlit("any");
    reveal_strlit("win32");
    reveal_strlit("win_");
    reveal_strlit("_universal");
    reveal_strlit("x86_64");
    reveal_strlit("i686");
    reveal_strlit("aarch64");
    reveal_strlit("arm64");
    reveal_strlit("armv7l");
    reveal_strlit("ppc64le");
    reveal_strlit("ppc64");
    reveal_strlit("s390x");
    reveal_strlit("universal2");
    reveal_strlit("universal");
    assert("any"@[0] == 'a' && "win32"@[0] == 'w' && s[0] == front[0]);
    assert(!"win_"@.is_prefix_of(s)) by {
        if "win_"@.is_prefix_of(s) {
            assert(s.subrange(0, 4)[0] == s[0]);
        }
    }
    text_laws::no_suffix("x86_64"@, s, 1);
    text_laws::no_suffix("i686"@, s, 1);
    text_laws::no_suffix("aarch64"@, s, 1);
    text_laws::no_suffix("arm64"@, s, 1);
    text_laws::no_suffix("armv7l"@, s, 2);
    text_laws::no_suffix("ppc64le"@, s, 1);
    text_laws::no_suffix("ppc64"@, s, 1);
    text_laws::no_suffix("s390x"@, s, 1);
    text_laws::no_suffix("universal2"@, s, 1);
    assert(s.subrange(s.len() - 9, s.len() as int) =~= "universal"@);
    assert(wheel::arch_suffix_of(s) == "universal"@);
    reveal_strlit("amd64");
    reveal_strlit("x86_64");
    reveal_strlit("arm64");
    reveal_strlit("aarch64");
    reveal_strlit("x86");
    reveal_strlit("i686");
    reveal_strlit("win32");
    assert("amd64"@[1] == 'm' && "x86_64"@[1] == '8' && "arm64"@[1] == 'r' && "aarch64"@[1] == 'a'
        && "i686"@[1] == '6' && "x86"@[1] == '8' && "win32"@[1] == 'i');
    assert("arm64"@.len() == 5 && "universal"@.len() == 9 && "universal"@[1] == 'n');
}

proof fn ends_in_intel(front: Seq<char>)
    requires
        front.len() > 0,
        front[0] == 'm' || front[0] == 'l',
    ensures
        wheel::arch(front + "_intel"@) == "intel"@,
{
    let s = front + "_intel"@;
    reveal_strlit("any");
    reveal_strlit("win32");
    reveal_strlit("win_");
    reveal_strlit("_intel");
    reveal_strlit("x86_64");
    reveal_strlit("i686");
    reveal_strlit("aarch64");
    reveal_strlit("arm64");
    reveal_strlit("armv7l");
    reveal_strlit("ppc64le");
    reveal_strlit("ppc64");
    reveal_strlit("s390x");
    reveal_strlit("universal2");
    reveal_strlit("universal");
    reveal_strlit("intel");
    assert("any"@[0] == 'a' && "win32"@[0] == 'w' && s[0] == front[0]);
    assert(!"win_"@.is_prefix_of(s)) by {
        if "win_"@.is_prefix_of(s) {
            assert(s.subrange(0, 4)[0] == s[0]);
        }
    }
    text_laws::no_suffix("x86_64"@, s, 1);
    text_laws::no_suffix("i686"@, s, 1);
    text_laws::no_suffix("aarch64"@, s, 1);
    text_laws::no_suffix("arm64"@, s, 1);
    text_laws::no_suffix("armv7l"@, s, 2);
    text_laws::no_suffix("ppc64le"@, s, 1);
    text_laws::no_suffix("ppc64"@, s, 1);
    text_laws::no_suffix("s390x"@, s, 1);
    text_laws::no_suffix("universal2"@, s, 1);
    text_laws::no_suffix("universal"@, s, 2);
    assert(s.subrange(s.len() - 5, s.len() as int) =~= "intel"@);
    assert(wheel::arch_suffix_of(s) == "intel"@);
    reveal_strlit("amd64");
    reveal_strlit("x86_64");
    reveal_strlit("arm64");
    reveal_strlit("aarch64");
    reveal_strlit("x86");
    reveal_strlit("i686");
    reveal_strlit("win32");
    assert("amd64"@[1] == 'm' && "x86_64"@[1] == '8' && "arm64"@[1] == 'r' && "aarch64"@[1] == 'a'
        && "i686"@[1] == '6' && "x86"@[1] == '8' && "win32"@[1] == 'i');
    assert("arm64"@.len() == 5 && "intel"@.len() == 5 && "intel"@[1] == 'n');
}

proof fn mac_family(v: Seq<char>)
    ensures
        wheel::family("macosx_"@ + v) == OsFamily::MacOs,
        ("macosx_"@ + v).len() > 0,
        ("macosx_"@ + v)[0] == 'm',
{
    let s = "macosx_"@ + v;
    reveal_strlit("macosx_");
    reveal_strlit("macosx");
    reveal_strlit("any");
    reveal_strlit("manylinux");
    reveal_strlit("musllinux");
    reveal_strlit("linux");
    assert("any"@[0] == 'a' && s[0] == 'm' && s[2] == 'c');
    text_laws::no_prefix("manylinux"@, s, 2);
    text_laws::no_prefix("musllinux"@, s, 1);
    text_laws::no_prefix("linux"@, s, 0);
    assert(s.subrange(0, 6) =~= "macosx"@);
}

/// The kinds of platform tags that Linux has.
pub open spec fn is_linux_kind(kind: Seq<char>) -> bool {
    kind == "manylinux"@ || kind == "musllinux"@ || kind == "linux"@
}

proof fn linux_family(kind: Seq<char>, v: Seq<char>)
    requires
        is_linux_kind(kind),
    ensures
        wheel::family(kind + v) == OsFamily::Linux,
        (kind + v)[0] == 'm' || (kind + v)[0] == 'l',
{
    let s = kind + v;
    reveal_strlit("any");
    reveal_strlit("manylinux");
    reveal_strlit("musllinux");
    reveal_strlit("linux");
    assert("any"@[0] == 'a' && s[0] == kind[0]);
    assert(s.subrange(0, kind.len() as int) =~= kind);
}

proof fn windows_tags()
    ensures
        wheel::family("win_amd64"@) == OsFamily::Windows,
        wheel::family("win_arm64"@) == OsFamily::Windows,
        wheel::family("win32"@) == OsFamily::Windows,
        wheel::arch("win_amd64"@) == "x86_64"@,
        wheel::arch("win_arm64"@) == "aarch64"@,
        wheel::arch("win32"@) == "x86"@,
        is_single("win_amd64"@),
        is_single("win_arm64"@),
        is_single("win32"@),
{
    reveal_strlit("any");
    reveal_strlit("win");
    reveal_strlit("win_");
    reveal_strlit("win32");
    reveal_strlit("win_amd64");
    reveal_strlit("win_arm64");
    reveal_strlit("amd64");
    reveal_strlit("arm64");
    reveal_strlit("x86_64");
    reveal_strlit("aarch64");
    reveal_strlit("manylinux");
    reveal_strlit("musllinux");
    reveal_strlit("linux");
    reveal_strlit("macosx");
    let a = "win_amd64"@;
    let b = "win_arm64"@;
    let c = "win32"@;
    assert("any"@[0] == 'a');
    text_laws::no_prefix("manylinux"@, a, 0);
    text_laws::no_prefix("musllinux"@, a, 0);
    text_laws::no_prefix("linux"@, a, 0);
    text_laws::no_prefix("macosx"@, a, 0);
    text_laws::no_prefix("manylinux"@, b, 0);
    text_laws::no_prefix("musllinux"@, b, 0);
    text_laws::no_prefix("linux"@, b, 0);
    text_laws::no_prefix("macosx"@, b, 0);
    text_laws::no_prefix("manylinux"@, c, 0);
    text_laws::no_prefix("musllinux"@, c, 0);
    text_laws::no_prefix("linux"@, c, 0);
    text_laws::no_prefix("macosx"@, c, 0);
    assert(a.subrange(0, 3) =~= "win"@);
    assert(b.subrange(0, 3) =~= "win"@);
    assert(c.subrange(0, 3) =~= "win"@);
    assert(a.subrange(0, 4) =~= "win_"@);
    assert(b.subrange(0, 4) =~= "win_"@);
    assert(a.skip(4) =~= "amd64"@);
    assert(b.skip(4) =~= "arm64"@);
    assert("amd64"@[1] == 'm' && "arm64"@[1] == 'r' && "x86_64"@[1] == '8');
}

proof fn archs_differ()
    ensures
        "x86_64"@ != "aarch64"@,
        "x86_64"@ != "x86"@,
        "aarch64"@ != "x86"@,
        "x86_64"@ != "universal2"@,
        "x86_64"@ != "universal"@,
        "x86_64"@ != "intel"@,
        "aarch64"@ != "universal2"@,
        "aarch64"@ != "universal"@,
        "aarch64"@ != "intel"@,
        "universal2"@ != "universal"@,
        "universal2"@ != "intel"@,
        "universal"@ != "intel"@,
        "x86_64"@.len() > 0,
        "aarch64"@.len() > 0,
        "universal2"@.len() > 0,
        "universal"@.len() > 0,
        "intel"@.len() > 0,
        "x86"@.len() > 0,
{
    reveal_strlit("x86_64");
    reveal_strlit("aarch64");
    reveal_strlit("x86");
    reveal_strlit("universal2");
    reveal_strlit("universal");
    reveal_strlit("intel");
    assert("x86_64"@[0] == 'x' && "aarch64"@[0] == 'a' && "x86"@.len() == 3 && "x86_64"@.len()
        == 6);
    assert("universal2"@.len() == 10 && "universal"@.len() == 9 && "intel"@.len() == 5);
}

// ── Platforms ───────────────────────────────────────────────────────────────
/// The score of a wheel that is built for the interpreter `target` and the platform
/// `tag`, on the platform `platform_tag`.
pub open spec fn native(
    of: Seq<char>,
    target: Seq<char>,
    tag: Seq<char>,
    platform_tag: Seq<char>,
    arch_suffix: Seq<char>,
) -> Option<int> {
    wheel::wheel_score(wheel_name(of, target, target, tag), target, platform_tag, arch_suffix)
}

/// A macOS tag: the version of the system, then what processors it is for.
pub open spec fn mac(version: Seq<char>, end: Seq<char>) -> Seq<char> {
    "macosx_"@ + version + end
}

proof fn mac_is_single(version: Seq<char>, end: Seq<char>)
    requires
        is_single(version),
        is_single(end),
    ensures
        is_single(mac(version, end)),
{
    reveal_strlit("macosx_");
    none_of(version, '-');
    none_of(version, '.');
    none_of(end, '-');
    none_of(end, '.');
    let s = mac(version, end);
    let n = version.len() as int;
    assert forall|i: int| 0 <= i < s.len() implies s[i] != '-' && s[i] != '.' by {
        if i >= 7 + n {
            assert(s[i] == end[i - 7 - n]);
        } else if i >= 7 {
            assert(s[i] == version[i - 7]);
        }
    }
}

proof fn mac_ends()
    ensures
        is_single("_x86_64"@),
        is_single("_arm64"@),
        is_single("_universal2"@),
        is_single("_universal"@),
        is_single("_intel"@),
{
    reveal_strlit("_x86_64");
    reveal_strlit("_arm64");
    reveal_strlit("_universal2");
    reveal_strlit("_universal");
    reveal_strlit("_intel");
}

proof fn mac_tag(v: Seq<char>, end: Seq<char>, a: Seq<char>)
    requires
        wheel::arch(("macosx_"@ + v) + end) == a,
    ensures
        wheel::arch(mac(v, end)) == a,
        wheel::family(mac(v, end)) == OsFamily::MacOs,
{
    mac_family(v + end);
    assert(mac(v, end) =~= "macosx_"@ + (v + end));
}

proof fn mac_archs(v: Seq<char>)
    ensures
        wheel::arch(mac(v, "_x86_64"@)) == "x86_64"@,
        wheel::arch(mac(v, "_arm64"@)) == "aarch64"@,
        wheel::arch(mac(v, "_universal2"@)) == "universal2"@,
        wheel::arch(mac(v, "_universal"@)) == "universal"@,
        wheel::arch(mac(v, "_intel"@)) == "intel"@,
        wheel::family(mac(v, "_x86_64"@)) == OsFamily::MacOs,
        wheel::family(mac(v, "_arm64"@)) == OsFamily::MacOs,
        wheel::family(mac(v, "_universal2"@)) == OsFamily::MacOs,
        wheel::family(mac(v, "_universal"@)) == OsFamily::MacOs,
        wheel::family(mac(v, "_intel"@)) == OsFamily::MacOs,
{
    let front = "macosx_"@ + v;
    mac_family(v);
    ends_in_x86_64(front);
    mac_tag(v, "_x86_64"@, "x86_64"@);
    ends_in_arm64(front);
    mac_tag(v, "_arm64"@, "aarch64"@);
    ends_in_universal2(front);
    mac_tag(v, "_universal2"@, "universal2"@);
    ends_in_universal(front);
    mac_tag(v, "_universal"@, "universal"@);
    ends_in_intel(front);
    mac_tag(v, "_intel"@, "intel"@);
}

/// On macOS a wheel for both processors, `universal2`, runs on each of them. One for
/// one processor runs on that one alone; the older sets `universal` and `intel` run on
/// `x86_64` and not on `arm64`. The versions of the system in the tags play no part.
pub proof fn mac_wheels(
    of: Seq<char>,
    target: Seq<char>,
    built: Seq<char>,
    runs: Seq<char>,
    arch_suffix: Seq<char>,
)
    requires
        is_single(target),
        is_single(built),
    ensures
        native(of, target, mac(built, "_universal2"@), mac(runs, "_x86_64"@), arch_suffix) == Some(
            100int,
        ),
        native(of, target, mac(built, "_universal2"@), mac(runs, "_arm64"@), arch_suffix) == Some(
            100int,
        ),
        native(of, target, mac(built, "_x86_64"@), mac(runs, "_x86_64"@), arch_suffix) == Some(
            100int,
        ),
        native(of, target, mac(built, "_arm64"@), mac(runs, "_arm64"@), arch_suffix) == Some(
            100int,
        ),
        native(of, target, mac(built, "_intel"@), mac(runs, "_x86_64"@), arch_suffix) == Some(
            100int,
        ),
        native(of, target, mac(built, "_universal"@), mac(runs, "_x86_64"@), arch_suffix) == Some(
            100int,
        ),
        native(of, target, mac(built, "_x86_64"@), mac(runs, "_arm64"@), arch_suffix) is None,
        native(of, target, mac(built, "_arm64"@), mac(runs, "_x86_64"@), arch_suffix) is None,
        native(of, target, mac(built, "_intel"@), mac(runs, "_arm64"@), arch_suffix) is None,
        native(of, target, mac(built, "_universal"@), mac(runs, "_arm64"@), arch_suffix) is None,
{
    mac_archs(built);
    mac_archs(runs);
    archs_differ();
    mac_ends();
    mac_is_single(built, "_x86_64"@);
    mac_is_single(built, "_arm64"@);
    mac_is_single(built, "_universal2"@);
    mac_is_single(built, "_universal"@);
    mac_is_single(built, "_intel"@);
    let x = mac(runs, "_x86_64"@);
    let a = mac(runs, "_arm64"@);
    native_score(of, target, mac(built, "_universal2"@), x, arch_suffix);
    native_score(of, target, mac(built, "_universal2"@), a, arch_suffix);
    native_score(of, target, mac(built, "_x86_64"@), x, arch_suffix);
    native_score(of, target, mac(built, "_x86_64"@), a, arch_suffix);
    native_score(of, target, mac(built, "_arm64"@), x, arch_suffix);
    native_score(of, target, mac(built, "_arm64"@), a, arch_suffix);
    native_score(of, target, mac(built, "_intel"@), x, arch_suffix);
    native_score(of, target, mac(built, "_intel"@), a, arch_suffix);
    native_score(of, target, mac(built, "_universal"@), x, arch_suffix);
    native_score(of, target, mac(built, "_universal"@), a, arch_suffix);
}

/// A Linux tag: `manylinux`, `musllinux` or `linux`, then a version or none, then the
/// processor.
pub open spec fn linux(kind: Seq<char>, version: Seq<char>, end: Seq<char>) -> Seq<char> {
    kind + version + end
}

/// The processors of Linux tags, each with its underscore.
pub open spec fn is_linux_end(end: Seq<char>) -> bool {
    ||| end == "_x86_64"@
    ||| end == "_aarch64"@
    ||| end == "_i686"@
    ||| end == "_armv7l"@
    ||| end == "_ppc64le"@
    ||| end == "_ppc64"@
    ||| end == "_s390x"@
}

proof fn linux_arch(kind: Seq<char>, v: Seq<char>, end: Seq<char>)
    requires
        is_linux_kind(kind),
        is_linux_end(end),
    ensures
        wheel::family(linux(kind, v, end)) == OsFamily::Linux,
        end == "_x86_64"@ ==> wheel::arch(linux(kind, v, end)) == "x86_64"@,
        end == "_aarch64"@ ==> wheel::arch(linux(kind, v, end)) == "aarch64"@,
        end == "_i686"@ ==> wheel::arch(linux(kind, v, end)) == "x86"@,
        end == "_armv7l"@ ==> wheel::arch(linux(kind, v, end)) == "armv7l"@,
        end == "_ppc64le"@ ==> wheel::arch(linux(kind, v, end)) == "ppc64le"@,
        end == "_ppc64"@ ==> wheel::arch(linux(kind, v, end)) == "ppc64"@,
        end == "_s390x"@ ==> wheel::arch(linux(kind, v, end)) == "s390x"@,
{
    let front = kind + v;
    linux_family(kind, v);
    linux_family(kind, v + end);
    assert(linux(kind, v, end) =~= kind + (v + end));
    reveal_strlit("manylinux");
    reveal_strlit("musllinux");
    reveal_strlit("linux");
    assert(front.len() > 0);
    ends_in_x86_64(front);
    ends_in_aarch64(front);
    ends_in_i686(front);
    ends_in_armv7l(front);
    ends_in_ppc64le(front);
    ends_in_ppc64(front);
    ends_in_s390x(front);
}

proof fn linux_is_single(kind: Seq<char>, v: Seq<char>, end: Seq<char>)
    requires
        is_linux_kind(kind),
        is_linux_end(end),
        is_single(v),
    ensures
        is_single(linux(kind, v, end)),
{
    reveal_strlit("manylinux");
    reveal_strlit("musllinux");
    reveal_strlit("linux");
    reveal_strlit("_x86_64");
    reveal_strlit("_aarch64");
    reveal_strlit("_i686");
    reveal_strlit("_armv7l");
    reveal_strlit("_ppc64le");
    reveal_strlit("_ppc64");
    reveal_strlit("_s390x");
    none_of(v, '-');
    none_of(v, '.');
    let s = linux(kind, v, end);
    let n = kind.len() as int;
    let m = v.len() as int;
    assert forall|i: int| 0 <= i < s.len() implies s[i] != '-' && s[i] != '.' by {
        if i >= n + m {
            assert(s[i] == end[i - n - m]);
        } else if i >= n {
            assert(s[i] == v[i - n]);
        } else {
            assert(s[i] == kind[i]);
        }
    }
}

proof fn linux_archs_differ()
    ensures
        "x86_64"@ != "aarch64"@ && "x86_64"@ != "x86"@ && "x86_64"@ != "armv7l"@ && "x86_64"@
            != "ppc64le"@ && "x86_64"@ != "ppc64"@ && "x86_64"@ != "s390x"@,
        "aarch64"@ != "x86"@ && "aarch64"@ != "armv7l"@ && "aarch64"@ != "ppc64le"@ && "aarch64"@
            != "ppc64"@ && "aarch64"@ != "s390x"@,
        "x86"@ != "armv7l"@ && "x86"@ != "ppc64le"@ && "x86"@ != "ppc64"@ && "x86"@ != "s390x"@,
        "armv7l"@ != "ppc64le"@ && "armv7l"@ != "ppc64"@ && "armv7l"@ != "s390x"@,
        "ppc64le"@ != "ppc64"@ && "ppc64le"@ != "s390x"@ && "ppc64"@ != "s390x"@,
        "x86_64"@.len() > 0 && "aarch64"@.len() > 0 && "x86"@.len() > 0 && "armv7l"@.len() > 0
            && "ppc64le"@.len() > 0 && "ppc64"@.len() > 0 && "s390x"@.len() > 0,
        "x86_64"@ != "universal2"@ && "x86_64"@ != "universal"@ && "x86_64"@ != "intel"@,
        "aarch64"@ != "universal2"@ && "aarch64"@ != "universal"@ && "aarch64"@ != "intel"@,
        "x86"@ != "universal2"@ && "x86"@ != "universal"@ && "x86"@ != "intel"@,
        "armv7l"@ != "universal2"@ && "armv7l"@ != "universal"@ && "armv7l"@ != "intel"@,
        "ppc64le"@ != "universal2"@ && "ppc64le"@ != "universal"@ && "ppc64le"@ != "intel"@,
        "ppc64"@ != "universal2"@ && "ppc64"@ != "universal"@ && "ppc64"@ != "intel"@,
        "s390x"@ != "universal2"@ && "s390x"@ != "universal"@ && "s390x"@ != "intel"@,
{
    reveal_strlit("x86_64");
    reveal_strlit("aarch64");
    reveal_strlit("x86");
    reveal_strlit("armv7l");
    reveal_strlit("ppc64le");
    reveal_strlit("ppc64");
    reveal_strlit("s390x");
    reveal_strlit("universal2");
    reveal_strlit("universal");
    reveal_strlit("intel");
    assert("x86_64"@[0] == 'x' && "x86"@[0] == 'x' && "aarch64"@[0] == 'a' && "armv7l"@[0] == 'a'
        && "ppc64le"@[0] == 'p' && "ppc64"@[0] == 'p' && "s390x"@[0] == 's' && "universal2"@[0]
        == 'u' && "universal"@[0] == 'u' && "intel"@[0] == 'i');
    assert("x86_64"@.len() == 6 && "x86"@.len() == 3 && "aarch64"@.len() == 7 && "armv7l"@.len()
        == 6 && "ppc64le"@.len() == 7 && "ppc64"@.len() == 5);
}

/// On Linux a wheel runs exactly on the processor that it is built for, whether its tag
/// says `manylinux`, `musllinux` or `linux` and whatever versions the tags name.
pub proof fn linux_wheels(
    of: Seq<char>,
    target: Seq<char>,
    built: (Seq<char>, Seq<char>, Seq<char>),
    runs: (Seq<char>, Seq<char>, Seq<char>),
    arch_suffix: Seq<char>,
)
    requires
        is_single(target),
        is_single(built.1),
        is_linux_kind(built.0),
        is_linux_end(built.2),
        is_linux_kind(runs.0),
        is_linux_end(runs.2),
    ensures
        native(
            of,
            target,
            linux(built.0, built.1, built.2),
            linux(runs.0, runs.1, runs.2),
            arch_suffix,
        ) == (if built.2 == runs.2 {
            Some(100int)
        } else {
            None
        }),
{
    linux_arch(built.0, built.1, built.2);
    linux_arch(runs.0, runs.1, runs.2);
    linux_archs_differ();
    linux_is_single(built.0, built.1, built.2);
    native_score(
        of,
        target,
        linux(built.0, built.1, built.2),
        linux(runs.0, runs.1, runs.2),
        arch_suffix,
    );
}

/// The platform tags of Windows.
pub open spec fn is_windows(tag: Seq<char>) -> bool {
    tag == "win_amd64"@ || tag == "win_arm64"@ || tag == "win32"@
}

/// On Windows a wheel runs exactly on the platform that it is built for.
pub proof fn windows_wheels(
    of: Seq<char>,
    target: Seq<char>,
    built: Seq<char>,
    runs: Seq<char>,
    arch_suffix: Seq<char>,
)
    requires
        is_single(target),
        is_windows(built),
        is_windows(runs),
    ensures
        native(of, target, built, runs, arch_suffix) == (if built == runs {
            Some(100int)
        } else {
            None
        }),
{
    windows_tags();
    linux_archs_differ();
    native_score(of, target, built, runs, arch_suffix);
}

/// A wheel for one operating system runs on none of the others, whatever the
/// processors are.
pub proof fn systems_are_apart(
    of: Seq<char>,
    target: Seq<char>,
    lin: (Seq<char>, Seq<char>, Seq<char>),
    version: Seq<char>,
    end: Seq<char>,
    win: Seq<char>,
    arch_suffix: Seq<char>,
)
    requires
        is_single(target),
        is_linux_kind(lin.0),
        is_linux_end(lin.2),
        is_single(lin.1),
        is_single(version),
        is_single(end),
        is_windows(win),
    ensures
        native(of, target, mac(version, end), linux(lin.0, lin.1, lin.2), arch_suffix) is None,
        native(of, target, mac(version, end), win, arch_suffix) is None,
        native(of, target, linux(lin.0, lin.1, lin.2), mac(version, end), arch_suffix) is None,
        native(of, target, linux(lin.0, lin.1, lin.2), win, arch_suffix) is None,
        native(of, target, win, linux(lin.0, lin.1, lin.2), arch_suffix) is None,
        native(of, target, win, mac(version, end), arch_suffix) is None,
{
    windows_tags();
    let l = linux(lin.0, lin.1, lin.2);
    let m = mac(version, end);
    linux_arch(lin.0, lin.1, lin.2);
    linux_is_single(lin.0, lin.1, lin.2);
    mac_is_single(version, end);
    mac_family(version + end);
    assert(m =~= "macosx_"@ + (version + end));
    native_score(of, target, m, l, arch_suffix);
    native_score(of, target, m, win, arch_suffix);
    native_score(of, target, l, m, arch_suffix);
    native_score(of, target, l, win, arch_suffix);
    native_score(of, target, win, l, arch_suffix);
    native_score(of, target, win, m, arch_suffix);
}

proof fn mac_without_processor()
    ensures
        wheel::arch("macosx"@).len() == 0,
{
    reveal_strlit("");
    reveal_strlit("macosx");
    reveal_strlit("any");
    reveal_strlit("win32");
    reveal_strlit("win_");
    let m = "macosx"@;
    assert("any"@[0] == 'a' && "win32"@[0] == 'w');
    text_laws::no_prefix("win_"@, m, 0);

    reveal_strlit("x86_64");
    text_laws::no_suffix("x86_64"@, m, 1);
    reveal_strlit("i686");
    text_laws::no_suffix("i686"@, m, 1);
    reveal_strlit("aarch64");
    text_laws::no_suffix("aarch64"@, m, 1);
    reveal_strlit("arm64");
    text_laws::no_suffix("arm64"@, m, 1);
    reveal_strlit("armv7l");
    text_laws::no_suffix("armv7l"@, m, 1);
    reveal_strlit("ppc64le");
    text_laws::no_suffix("ppc64le"@, m, 1);
    reveal_strlit("ppc64");
    text_laws::no_suffix("ppc64"@, m, 1);
    reveal_strlit("s390x");
    text_laws::no_suffix("s390x"@, m, 2);
    reveal_strlit("universal2");
    text_laws::no_suffix("universal2"@, m, 1);
    reveal_strlit("universal");
    text_laws::no_suffix("universal"@, m, 1);
    reveal_strlit("intel");
    text_laws::no_suffix("intel"@, m, 1);
    reveal_strlit("amd64");
    text_laws::no_suffix("amd64"@, m, 1);
    reveal_strlit("x86");
    text_laws::no_suffix("x86"@, m, 1);
    assert(wheel::arch_suffix_of(m) == ""@);
    assert("amd64"@.len() == 5 && "x86_64"@.len() == 6 && "arm64"@.len() == 5 && "aarch64"@.len()
        == 7 && "x86"@.len() == 3 && "i686"@.len() == 4 && "win32"@.len() == 5);
}

proof fn normal_names()
    ensures
        wheel::normal_arch("x86_64"@) == "x86_64"@,
        wheel::normal_arch("amd64"@) == "x86_64"@,
        wheel::normal_arch("arm64"@) == "aarch64"@,
        wheel::normal_arch("aarch64"@) == "aarch64"@,
{
    reveal_strlit("x86_64");
    reveal_strlit("aarch64");
    reveal_strlit("amd64");
    reveal_strlit("arm64");
    assert("amd64"@[1] == 'm' && "x86_64"@[1] == '8' && "arm64"@[1] == 'r' && "aarch64"@[1]
        == 'a');
}

proof fn endings_are_cut()
    ensures
        text::trim_end_text("x86_64.whl"@, ".whl"@) == "x86_64"@,
        text::trim_end_text("amd64.whl"@, ".whl"@) == "amd64"@,
        text::trim_end_text("arm64.whl"@, ".whl"@) == "arm64"@,
        text::trim_end_text("aarch64.whl"@, ".whl"@) == "aarch64"@,
{
    reveal_strlit(".whl");
    reveal_strlit("x86_64");
    reveal_strlit("aarch64");
    reveal_strlit("amd64");
    reveal_strlit("arm64");
    reveal_strlit("x86_64.whl");
    reveal_strlit("amd64.whl");
    reveal_strlit("arm64.whl");
    reveal_strlit("aarch64.whl");
    assert("x86_64.whl"@ =~= "x86_64"@ + ".whl"@);
    assert("amd64.whl"@ =~= "amd64"@ + ".whl"@);
    assert("arm64.whl"@ =~= "arm64"@ + ".whl"@);
    assert("aarch64.whl"@ =~= "aarch64"@ + ".whl"@);
    ending_is_cut("x86_64"@, "x86_64.whl"@);
    ending_is_cut("amd64"@, "amd64.whl"@);
    ending_is_cut("arm64"@, "arm64.whl"@);
    ending_is_cut("aarch64"@, "aarch64.whl"@);
}

/// Where the platform does not name its processor, the file ending that is handed in
/// with it does, under each of the names that processors have; where it names one, the
/// ending plays no part.
pub proof fn ending_names_processor(end: Seq<char>)
    ensures
        wheel::target_arch("macosx"@, "x86_64.whl"@) == "x86_64"@,
        wheel::target_arch("macosx"@, "amd64.whl"@) == "x86_64"@,
        wheel::target_arch("macosx"@, "arm64.whl"@) == "aarch64"@,
        wheel::target_arch("macosx"@, "aarch64.whl"@) == "aarch64"@,
        wheel::target_arch("win_amd64"@, end) == "x86_64"@,
        wheel::target_arch("win_arm64"@, end) == "aarch64"@,
        wheel::target_arch("win32"@, end) == "x86"@,
{
    windows_tags();
    mac_without_processor();
    archs_differ();
    normal_names();
    endings_are_cut();
}

proof fn ending_is_cut(name: Seq<char>, end: Seq<char>)
    requires
        end == name + ".whl"@,
        name.len() > 0,
        name.last() != 'l',
    ensures
        text::trim_end_text(end, ".whl"@) == name,
{
    reveal_strlit(".whl");
    assert(end.subrange(end.len() - 4, end.len() as int) =~= ".whl"@);
    assert(end.take(end.len() - 4) =~= name);
    text_laws::no_suffix(".whl"@, name, 1);
    assert(text::trim_end_text(name, ".whl"@) == name);
    assert(".whl"@.is_suffix_of(end));
}

// ── Sets of tags ────────────────────────────────────────────────────────────
/// A wheel for several platforms, with a dot between them, fits where one of them
/// does, and `any` fits everywhere.
pub proof fn any_of_the_platforms(
    platforms: Seq<char>,
    tag: Seq<char>,
    target: OsFamily,
    target_arch: Seq<char>,
)
    requires
        !tag.contains('.'),
    ensures
        wheel::any_platform_fits(text::split(platforms + "."@ + tag, '.'), target, target_arch)
            == (wheel::any_platform_fits(text::split(platforms, '.'), target, target_arch)
            || wheel::platform_fits(target, target_arch, tag)),
        wheel::any_platform_fits(text::split(tag, '.'), target, target_arch)
            == wheel::platform_fits(target, target_arch, tag),
        wheel::platform_fits(target, target_arch, "any"@),
{
    reveal_strlit(".");
    assert("."@ =~= seq!['.']);
    none_of(tag, '.');
    text_laws::split_last(platforms, '.', tag);
    text_laws::split_single(tag, '.');
    let front = text::split(platforms, '.');
    let all = front.push(tag);
    assert(seq![tag][0] == tag);
    assert(all[front.len() as int] == tag);
    if wheel::any_platform_fits(front, target, target_arch) {
        let i = choose|i: int|
            0 <= i < front.len() && wheel::platform_fits(target, target_arch, #[trigger] front[i]);
        assert(all[i] == front[i]);
    }
    if wheel::any_platform_fits(all, target, target_arch) {
        let i = choose|i: int|
            0 <= i < all.len() && wheel::platform_fits(target, target_arch, #[trigger] all[i]);
        if i < front.len() {
            assert(all[i] == front[i]);
        }
    }
}

/// A wheel for several interpreters has the better of the scores that it has for each,
/// and one for none of them has none.
pub proof fn best_of_the_interpreters(
    pys: Seq<char>,
    py: Seq<char>,
    abis: Seq<char>,
    target: Seq<char>,
    pure: bool,
)
    requires
        !py.contains('.'),
    ensures
        ({
            let all = wheel::table_score(
                text::split(pys + "."@ + py, '.'),
                text::split(abis, '.'),
                target,
                pure,
            );
            let front = wheel::table_score(text::split(pys, '.'), text::split(abis, '.'), target, pure);
            let last = wheel::table_score(text::split(py, '.'), text::split(abis, '.'), target, pure);
            &&& all is None <==> front is None && last is None
            &&& front is Some ==> all is Some && front->0 <= all->0
            &&& last is Some ==> all is Some && last->0 <= all->0
            &&& all is Some ==> all == front || all == last
        }),
{
    reveal_strlit(".");
    assert("."@ =~= seq!['.']);
    none_of(py, '.');
    text_laws::split_last(pys, '.', py);
    text_laws::split_single(py, '.');
    let front = text::split(pys, '.');
    assert(front.push(py).drop_last() =~= front);
    assert(front.push(py).last() == py);
    assert(seq![py].drop_last() =~= Seq::<Seq<char>>::empty());
    assert(wheel::table_score(Seq::empty(), text::split(abis, '.'), target, pure) is None);
}

// ── Wheels for every platform ───────────────────────────────────────────────
#[verifier::rlimit(40)]
proof fn pure_score(
    of: Seq<char>,
    py: Seq<char>,
    target: Seq<char>,
    platform_tag: Seq<char>,
    arch_suffix: Seq<char>,
)
    requires
        !py.contains('-'),
    ensures
        wheel::wheel_score(
            wheel_name(of, py, "none"@, "any"@),
            target,
            platform_tag,
            arch_suffix,
        ) == wheel::table_score(text::split(py, '.'), seq!["none"@], target, true),
{
    reveal_strlit("none");
    reveal_strlit("any");
    tags_are_last(of, py, "none"@, "any"@);
    text_laws::split_single("any"@, '.');
    text_laws::split_single("none"@, '.');
    let platforms = text::split("any"@, '.');
    assert(platforms[0] == "any"@);
    assert(platforms.contains("any"@));
    let family = wheel::family(platform_tag);
    let arch = wheel::target_arch(platform_tag, arch_suffix);
    any_of_the_platforms("any"@, "any"@, family, arch);
    assert(wheel::any_platform_fits(platforms, family, arch));
}

/// A wheel `py3-none-any`, and one `py2.py3-none-any`, runs on every platform and on
/// every interpreter of Python 3, below what is built for the interpreter itself; one
/// `py2-none-any` runs on none.
pub proof fn pure_wheels(
    of: Seq<char>,
    minor: nat,
    platform_tag: Seq<char>,
    arch_suffix: Seq<char>,
)
    ensures
        ({
            let target = wheel::cpython_tag(minor);
            &&& wheel::wheel_score(
                wheel_name(of, "py3"@, "none"@, "any"@),
                target,
                platform_tag,
                arch_suffix,
            ) == Some(50int)
            &&& wheel::wheel_score(
                wheel_name(of, "py2.py3"@, "none"@, "any"@),
                target,
                platform_tag,
                arch_suffix,
            ) == Some(50int)
            &&& wheel::wheel_score(
                wheel_name(of, "py2"@, "none"@, "any"@),
                target,
                platform_tag,
                arch_suffix,
            ) is None
        }),
{
    let target = wheel::cpython_tag(minor);
    reveal_strlit("cp3");
    reveal_strlit("py3");
    reveal_strlit("py2");
    reveal_strlit("py2.py3");
    reveal_strlit("none");
    reveal_strlit("abi3");
    reveal_strlit(".");
    assert(target[0] == 'c' && "py3"@[0] == 'p' && "py2"@[0] == 'p');
    assert("none"@[0] == 'n' && "abi3"@[0] == 'a');
    assert("py2"@[2] == '2' && "py3"@[2] == '3' && "cp3"@[0] == 'c' && "py2.py3"@.len() == 7);
    pure_score(of, "py3"@, target, platform_tag, arch_suffix);
    pure_score(of, "py2"@, target, platform_tag, arch_suffix);
    pure_score(of, "py2.py3"@, target, platform_tag, arch_suffix);
    text_laws::split_single("none"@, '.');
    assert(is_single("py3"@) && is_single("py2"@) && is_single("none"@));
    single_table("py3"@, "none"@, target, true);
    single_table("py2"@, "none"@, target, true);
    text_laws::no_prefix("py3"@, "py2"@, 2);
    assert("py2.py3"@ =~= "py2"@ + "."@ + "py3"@);
    best_of_the_interpreters("py2"@, "py3"@, "none"@, target, true);
}

/// A wheel for an earlier interpreter that uses the stable interface runs on a later
/// one, and what is built for a platform without an interface, `py3-none`, runs only
/// where it is for every platform.
pub proof fn stable_wheels(
    of: Seq<char>,
    built: nat,
    runs: nat,
    tag: Seq<char>,
    platform_tag: Seq<char>,
    arch_suffix: Seq<char>,
)
    requires
        is_single(tag),
        tag != "any"@,
        built < runs <= u32::MAX,
        native(of, wheel::cpython_tag(runs), tag, platform_tag, arch_suffix) is Some,
    ensures
        wheel::wheel_score(
            wheel_name(of, wheel::cpython_tag(built), "abi3"@, tag),
            wheel::cpython_tag(runs),
            platform_tag,
            arch_suffix,
        ) == Some(70 + built as int),
        wheel::wheel_score(
            wheel_name(of, wheel::cpython_tag(runs), "abi3"@, tag),
            wheel::cpython_tag(built),
            platform_tag,
            arch_suffix,
        ) is None,
        wheel::wheel_score(
            wheel_name(of, wheel::cpython_tag(runs), "abi3"@, tag),
            wheel::cpython_tag(runs),
            platform_tag,
            arch_suffix,
        ) == Some(95int),
        wheel::wheel_score(
            wheel_name(of, "py3"@, "none"@, tag),
            wheel::cpython_tag(runs),
            platform_tag,
            arch_suffix,
        ) is None,
{
    reveal_strlit("cp3");
    reveal_strlit("py3");
    reveal_strlit("abi3");
    reveal_strlit("none");
    let older = wheel::cpython_tag(built);
    let newer = wheel::cpython_tag(runs);
    cpython_is_single(built);
    cpython_is_single(runs);
    assert(is_single("abi3"@) && is_single("py3"@) && is_single("none"@));
    tags_are_last(of, older, "abi3"@, tag);
    tags_are_last(of, newer, "abi3"@, tag);
    tags_are_last(of, "py3"@, "none"@, tag);
    text_laws::split_single(tag, '.');
    let platforms = text::split(tag, '.');
    assert(platforms[0] == tag);
    assert(!platforms.contains("any"@));
    native_score(of, newer, tag, platform_tag, arch_suffix);
    assert(wheel::any_platform_fits(
        platforms,
        wheel::family(platform_tag),
        wheel::target_arch(platform_tag, arch_suffix),
    ));
    single_table(older, "abi3"@, newer, false);
    single_table(newer, "abi3"@, older, false);
    single_table(newer, "abi3"@, newer, false);
    single_table("py3"@, "none"@, newer, false);
    assert("py3"@[0] == 'p' && newer[0] == 'c');
    assert("none"@[0] == 'n' && "abi3"@[0] == 'a');
    wheel::cpython_tag_parts(built);
    wheel::cpython_tag_parts(runs);
    if older == newer {
        wheel::cpython_tags_differ(built, runs);
    }
    text_laws::no_prefix(newer, "abi3"@, 0);
    assert(wheel::tag_prefix(newer).is_prefix_of(older)) by {
        assert(older.subrange(0, 2) =~= seq!['c', 'p']);
    }
    assert(wheel::tag_prefix(older).is_prefix_of(newer)) by {
        assert(newer.subrange(0, 2) =~= seq!['c', 'p']);
    }
}

proof fn cpython_is_single(minor: nat)
    ensures
        is_single(wheel::cpython_tag(minor)),
{
    reveal_strlit("cp3");
    text::decimal_is_read(minor);
    let d = text::decimal(minor);
    let s = wheel::cpython_tag(minor);
    assert forall|i: int| 0 <= i < s.len() implies s[i] != '-' && s[i] != '.' by {
        if i >= 3 {
            assert(s[i] == d[i - 3]);
            assert(text::is_digit(d[i - 3]));
        }
    }
}

// ── The file that is taken ──────────────────────────────────────────────────
/// Where a wheel fits, the file that is taken is a wheel, and no wheel fits better: one
/// that fits as well has a later name or stands behind it.
pub proof fn best_wheel_is_taken(
    files: Seq<PypiFileEntry>,
    target: Seq<char>,
    platform: Seq<char>,
    suffix: Seq<char>,
    i: int,
    j: int,
)
    requires
        wheel::is_chosen(files, target, platform, suffix, i),
        0 <= j < files.len(),
        files[j].packagetype@ == "bdist_wheel"@,
        wheel::wheel_score(files[j].filename@, target, platform, suffix) is Some,
    ensures
        0 <= i < files.len(),
        files[i].packagetype@ == "bdist_wheel"@,
        ({
            let mine = wheel::wheel_score(files[i].filename@, target, platform, suffix);
            let other = wheel::wheel_score(files[j].filename@, target, platform, suffix);
            &&& mine is Some
            &&& mine->0 >= other->0
            &&& mine->0 == other->0 && i != j ==> text::less(
                files[i].filename@,
                files[j].filename@,
            ) || (files[i].filename@ == files[j].filename@ && i < j)
        }),
{
    assert(wheel::file_score(files[j], target, platform, suffix) is Some);
}

/// A source distribution is taken only where no wheel fits, and it is the first of them.
pub proof fn source_is_taken_last(
    files: Seq<PypiFileEntry>,
    target: Seq<char>,
    platform: Seq<char>,
    suffix: Seq<char>,
    i: int,
    j: int,
)
    requires
        wheel::is_chosen(files, target, platform, suffix, i),
        files[i].packagetype@ != "bdist_wheel"@,
        0 <= j < files.len(),
    ensures
        0 <= i < files.len(),
        files[i].packagetype@ == "sdist"@,
        files[j].packagetype@ == "sdist"@ ==> i <= j,
        files[j].packagetype@ == "bdist_wheel"@ ==> wheel::wheel_score(
            files[j].filename@,
            target,
            platform,
            suffix,
        ) is None,
{
    assert(wheel::file_score(files[j], target, platform, suffix) is None);
}

/// A wheel for several interfaces fits an interpreter as well as the best of them does.
pub proof fn best_of_the_interfaces(
    py: Seq<char>,
    abis: Seq<char>,
    abi: Seq<char>,
    target: Seq<char>,
    pure: bool,
)
    requires
        !py.contains('.'),
        !abi.contains('.'),
    ensures
        ({
            let score = |a: Seq<char>|
                wheel::table_score(text::split(py, '.'), text::split(a, '.'), target, pure);
            let all = score(abis + "."@ + abi);
            let front = score(abis);
            let last = score(abi);
            &&& all is None <==> front is None && last is None
            &&& front is Some ==> all is Some && front->0 <= all->0
            &&& last is Some ==> all is Some && last->0 <= all->0
            &&& all is Some ==> all == front || all == last
        }),
{
    reveal_strlit(".");
    assert("."@ =~= seq!['.']);
    none_of(abi, '.');
    text_laws::split_last(abis, '.', abi);
    text_laws::split_single(abi, '.');
    text_laws::split_single(py, '.');
    let front = text::split(abis, '.');
    assert(front.push(abi).drop_last() =~= front);
    assert(front.push(abi).last() == abi);
    assert(seq![abi].drop_last() =~= Seq::<Seq<char>>::empty());
    assert(seq![py].drop_last() =~= Seq::<Seq<char>>::empty());
    assert(wheel::row_score(py, Seq::empty(), target, pure) is None);
    assert(wheel::table_score(Seq::empty(), front.push(abi), target, pure) is None);
    assert(wheel::table_score(Seq::empty(), front, target, pure) is None);
    assert(wheel::table_score(Seq::empty(), seq![abi], target, pure) is None);
}

/// How well an interpreter and an interface fit: the interpreter's own interface best,
/// then the stable one, then none at all, then what a wheel without compiled code is for.
/// Compiled code for another interpreter does not fit, nor does another interface.
pub proof fn fits_are_ordered(
    target: Seq<char>,
    rest: Seq<char>,
    abi: Seq<char>,
    py: Seq<char>,
    pure: bool,
)
    requires
        target != "py3"@,
        target != "py2.py3"@,
        target != "cp3"@,
        py != target,
        "py3"@.is_prefix_of(py),
        py != "py3"@,
        !target.is_prefix_of(abi),
        !target.is_prefix_of("abi3"@),
        !target.is_prefix_of("none"@),
        abi != "abi3"@,
        abi != "none"@,
    ensures
        wheel::pair_score(target, target + rest, target, pure) == Some(100int),
        wheel::pair_score(target, "abi3"@, target, pure) == Some(95int),
        wheel::pair_score(target, "none"@, target, pure) == Some(90int),
        wheel::pair_score(target, abi, target, pure) is None,
        wheel::pair_score("py3"@, "none"@, target, true) == Some(50int),
        wheel::pair_score("cp3"@, "none"@, target, true) == Some(50int),
        wheel::pair_score(py, "none"@, target, true) == Some(48int),
        wheel::pair_score("py3"@, "none"@, target, false) is None,
        wheel::pair_score(py, "none"@, target, false) is None,
        wheel::pair_score(py, abi, target, pure) is None,
{
    reveal_strlit("abi3");
    reveal_strlit("none");
    reveal_strlit("py3");
    reveal_strlit("cp3");
    reveal_strlit("py2.py3");
    assert("abi3"@[0] == 'a' && "none"@[0] == 'n');
    assert("py3"@[0] == 'p' && "cp3"@[0] == 'c');
    assert("py2.py3"@[2] == '2');
    text_laws::joined_ends(target, rest);
    assert("py3"@ == py.subrange(0, 3));
    assert(py.subrange(0, 3)[0] == 'p' && py.subrange(0, 3)[2] == '3');
}

} // verus!

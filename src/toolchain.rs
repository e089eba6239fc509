use vstd::prelude::*;
use vstd::string::*;

use crate::config::ConfigRustup;
use crate::layout::texts;
use crate::reconcile::contains_text;

verus! {

/// A toolchain release channel.
#[derive(Debug, Clone, Copy, PartialEq, Eq, Structural)]
pub enum ReleaseChannel {
    Stable,
    Beta,
    Nightly,
}

/// One archive of a release for a platform.
#[derive(Debug, Clone, Copy, PartialEq, Eq, Structural)]
pub enum ArchiveVariant {
    /// The plain toolchain archives.
    Base,
    /// The compiler development components.
    Dev,
    /// The gzip archives.
    Gz,
    /// The xz archives.
    Xz,
}

pub open spec fn flag_on(o: Option<bool>) -> bool {
    o == Some(true)
}

/// The archive variants that the settings ask for: the plain archives
/// always, each other one only where it is switched on.
pub open spec fn variants_of(cfg: ConfigRustup) -> Seq<ArchiveVariant> {
    seq![ArchiveVariant::Base] + (if flag_on(cfg.download_dev) {
        seq![ArchiveVariant::Dev]
    } else {
        Seq::empty()
    }) + (if flag_on(cfg.download_gz) {
        seq![ArchiveVariant::Gz]
    } else {
        Seq::empty()
    }) + (if flag_on(cfg.download_xz) {
        seq![ArchiveVariant::Xz]
    } else {
        Seq::empty()
    })
}

fn is_on(o: Option<bool>) -> (r: bool)
    ensures
        r == flag_on(o),
{
    match o {
        Some(b) => b,
        None => false,
    }
}

/// The archive variants to fetch, in the order base, dev, gz, xz.
pub fn enabled_variants(cfg: &ConfigRustup) -> (r: Vec<ArchiveVariant>)
    ensures
        r@ == variants_of(*cfg),
{
    let mut v: Vec<ArchiveVariant> = Vec::new();
    v.push(ArchiveVariant::Base);
    if is_on(cfg.download_dev) {
        v.push(ArchiveVariant::Dev);
    }
    if is_on(cfg.download_gz) {
        v.push(ArchiveVariant::Gz);
    }
    if is_on(cfg.download_xz) {
        v.push(ArchiveVariant::Xz);
    }
    assert(v@ =~= variants_of(*cfg));
    v
}

/// The retention bound of a channel.
pub fn keep_latest_for(cfg: &ConfigRustup, ch: ReleaseChannel) -> (r: Option<usize>)
    ensures
        r == match ch {
            ReleaseChannel::Stable => cfg.keep_latest_stables,
            ReleaseChannel::Beta => cfg.keep_latest_betas,
            ReleaseChannel::Nightly => cfg.keep_latest_nightlies,
        },
{
    match ch {
        ReleaseChannel::Stable => cfg.keep_latest_stables,
        ReleaseChannel::Beta => cfg.keep_latest_betas,
        ReleaseChannel::Nightly => cfg.keep_latest_nightlies,
    }
}

pub open spec fn opt_texts(o: Option<Vec<String>>) -> Seq<Seq<char>> {
    match o {
        Some(v) => texts(v@),
        None => Seq::empty(),
    }
}

fn append_texts(out: &mut Vec<String>, src: &Vec<String>)
    ensures
        texts(final(out)@) == texts(old(out)@) + texts(src@),
{
    let mut i: usize = 0;
    while i < src.len()
        invariant
            i <= src.len(),
            texts(out@) == texts(old(out)@) + texts(src@).subrange(0, i as int),
        decreases src.len() - i,
    {
        let ghost prev = out@;
        out.push(src[i].clone());
        assert(texts(out@) =~= texts(prev).push(src@[i as int]@));
        assert(texts(src@).subrange(0, i + 1) =~= texts(src@).subrange(0, i as int).push(
            src@[i as int]@,
        ));
        assert(texts(out@) =~= texts(old(out)@) + texts(src@).subrange(0, i + 1));
        i = i + 1;
    }
    assert(texts(src@).subrange(0, src@.len() as int) =~= texts(src@));
}

/// Every configured platform: the unix ones, then the windows ones.
pub fn all_platforms(cfg: &ConfigRustup) -> (r: Vec<String>)
    ensures
        texts(r@) == opt_texts(cfg.platforms_unix) + opt_texts(cfg.platforms_windows),
{
    let mut out: Vec<String> = Vec::new();
    assert(texts(out@) =~= Seq::empty());
    match &cfg.platforms_unix {
        Some(v) => append_texts(&mut out, v),
        None => {},
    }
    assert(texts(out@) =~= opt_texts(cfg.platforms_unix));
    match &cfg.platforms_windows {
        Some(v) => append_texts(&mut out, v),
        None => {},
    }
    assert(texts(out@) =~= opt_texts(cfg.platforms_unix) + opt_texts(cfg.platforms_windows));
    out
}

/// The pinned versions, none when unset.
pub fn pinned_versions(cfg: &ConfigRustup) -> (r: Vec<String>)
    ensures
        texts(r@) == opt_texts(cfg.pinned_rust_versions),
{
    let mut out: Vec<String> = Vec::new();
    assert(texts(out@) =~= Seq::empty());
    match &cfg.pinned_rust_versions {
        Some(v) => append_texts(&mut out, v),
        None => {},
    }
    assert(texts(out@) =~= opt_texts(cfg.pinned_rust_versions));
    out
}

pub open spec fn channel_text(ch: ReleaseChannel) -> Seq<char> {
    match ch {
        ReleaseChannel::Stable => "stable"@,
        ReleaseChannel::Beta => "beta"@,
        ReleaseChannel::Nightly => "nightly"@,
    }
}

pub open spec fn variant_text(v: ArchiveVariant) -> Seq<char> {
    match v {
        ArchiveVariant::Base => "base"@,
        ArchiveVariant::Dev => "dev"@,
        ArchiveVariant::Gz => "gz"@,
        ArchiveVariant::Xz => "xz"@,
    }
}

/// The name of a channel.
pub fn channel_name(ch: ReleaseChannel) -> (r: &'static str)
    ensures
        r@ == channel_text(ch),
{
    match ch {
        ReleaseChannel::Stable => "stable",
        ReleaseChannel::Beta => "beta",
        ReleaseChannel::Nightly => "nightly",
    }
}

/// The name of an archive variant.
pub fn variant_name(v: ArchiveVariant) -> (r: &'static str)
    ensures
        r@ == variant_text(v),
{
    match v {
        ArchiveVariant::Base => "base",
        ArchiveVariant::Dev => "dev",
        ArchiveVariant::Gz => "gz",
        ArchiveVariant::Xz => "xz",
    }
}

/// `dist/<platform>/<channel>/<release>/<variant>`.
pub open spec fn artifact_path_of(
    platform: Seq<char>,
    ch: ReleaseChannel,
    release: Seq<char>,
    v: ArchiveVariant,
) -> Seq<char> {
    "dist/"@ + platform + "/"@ + channel_text(ch) + "/"@ + release + "/"@ + variant_text(v)
}

/// The local place of one toolchain artifact.
pub fn artifact_path(platform: &str, ch: ReleaseChannel, release: &str, v: ArchiveVariant) -> (r:
    String)
    ensures
        r@ == artifact_path_of(platform@, ch, release@, v),
{
    let mut s = String::from_str("dist/");
    s.append(platform);
    s.append("/");
    s.append(channel_name(ch));
    s.append("/");
    s.append(release);
    s.append("/");
    s.append(variant_name(v));
    s
}

/// The artifacts of one release whose local file is absent, in variant
/// order.
pub open spec fn absent_upto(
    platform: Seq<char>,
    ch: ReleaseChannel,
    release: Seq<char>,
    vars: Seq<ArchiveVariant>,
    present: Seq<Seq<char>>,
    n: int,
) -> Seq<Seq<char>>
    decreases n,
{
    if n <= 0 {
        Seq::empty()
    } else {
        let p = absent_upto(platform, ch, release, vars, present, n - 1);
        let a = artifact_path_of(platform, ch, release, vars[n - 1]);
        if present.contains(a) {
            p
        } else {
            p.push(a)
        }
    }
}

/// The artifacts of an in-scope release that are still to be fetched: one
/// per enabled variant, unless it is already present.
pub fn absent_artifacts(
    platform: &str,
    ch: ReleaseChannel,
    release: &str,
    variants: &Vec<ArchiveVariant>,
    present: &Vec<String>,
) -> (r: Vec<String>)
    ensures
        texts(r@) == absent_upto(
            platform@,
            ch,
            release@,
            variants@,
            texts(present@),
            variants@.len() as int,
        ),
{
    let mut out: Vec<String> = Vec::new();
    let mut i: usize = 0;
    assert(texts(out@) =~= Seq::empty());
    while i < variants.len()
        invariant
            i <= variants.len(),
            texts(out@) == absent_upto(
                platform@,
                ch,
                release@,
                variants@,
                texts(present@),
                i as int,
            ),
        decreases variants.len() - i,
    {
        let a = artifact_path(platform, ch, release, variants[i]);
        if !contains_text(present, &a) {
            let ghost before = texts(out@);
            out.push(a);
            assert(texts(out@) =~= before.push(a@));
        }
        i = i + 1;
    }
    out
}

} // verus!

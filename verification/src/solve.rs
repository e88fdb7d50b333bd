//! The build request: what a build configuration asks of the daemon, as
//! frontend attributes, exporter and cache descriptors.

use crate::text::{concat2, join, joined, replace_all, replaced, starts_with, views};
use crate::text::{is_prefix, same_text};
use vstd::prelude::*;

verus! {

/// A key with its value, as the daemon's attribute maps hold them.
pub type AttrPair = (Seq<char>, Seq<char>);

/// One entry of an attribute map. A list of entries stands for the map
/// that `attr_map` gives.
#[derive(Debug, Clone, PartialEq, Eq)]
pub struct Attr {
    pub key: String,
    pub value: String,
}

impl View for Attr {
    type V = AttrPair;

    open spec fn view(&self) -> AttrPair {
        (self.key@, self.value@)
    }
}

/// The entries of an attribute list as pairs of texts.
pub open spec fn attr_views(attrs: Seq<Attr>) -> Seq<AttrPair> {
    attrs.map_values(|a: Attr| a@)
}

/// Where the Dockerfile and its context come from.
#[derive(Debug, Clone, PartialEq, Eq)]
pub enum DockerfileSource {
    /// A directory on this machine.
    Local { context_path: String, dockerfile_path: Option<String> },
    /// A git repository.
    GitHub {
        repo_url: String,
        git_ref: Option<String>,
        token: Option<String>,
        dockerfile_path: Option<String>,
    },
}

/// Credentials for the registry that the image is pushed to.
#[derive(Debug, Clone, PartialEq, Eq)]
pub struct RegistryAuth {
    pub host: String,
    pub username: String,
    pub password: String,
}

/// Everything a build is configured with.
#[derive(Debug, Clone, PartialEq, Eq)]
pub struct BuildConfig {
    pub source: DockerfileSource,
    pub build_args: Vec<Attr>,
    pub target: Option<String>,
    pub platforms: Vec<String>,
    pub tags: Vec<String>,
    pub registry_auth: Option<RegistryAuth>,
    pub cache_from: Vec<String>,
    pub cache_to: Vec<String>,
    pub no_cache: bool,
    pub pull: bool,
}

/// A descriptor with a type and attributes: an exporter or a cache entry.
#[derive(Debug, Clone, PartialEq, Eq)]
pub struct Descriptor {
    pub kind: String,
    pub attrs: Vec<Attr>,
}

impl View for Descriptor {
    type V = (Seq<char>, Seq<AttrPair>);

    open spec fn view(&self) -> (Seq<char>, Seq<AttrPair>) {
        (self.kind@, attr_views(self.attrs@))
    }
}

/// The descriptors of a list as pairs of type and attributes.
pub open spec fn descriptor_views(items: Seq<Descriptor>) -> Seq<(Seq<char>, Seq<AttrPair>)> {
    items.map_values(|d: Descriptor| d@)
}

/// The request that starts a build.
#[derive(Debug, Clone, PartialEq, Eq)]
pub struct SolvePlan {
    pub build_ref: String,
    pub frontend: String,
    pub frontend_attrs: Vec<Attr>,
    pub exporters: Vec<Descriptor>,
    pub cache_imports: Vec<Descriptor>,
    pub cache_exports: Vec<Descriptor>,
}

/// What a finished build reports.
#[derive(Debug, Clone, PartialEq, Eq)]
pub struct BuildResult {
    /// The digest of the image, if the daemon exported one.
    pub digest: Option<String>,
    /// Everything the exporter reported.
    pub metadata: Vec<Attr>,
}

/// The `filename` attribute: present when a Dockerfile path is configured.
pub open spec fn filename_attr(source: DockerfileSource) -> Seq<AttrPair> {
    match source {
        DockerfileSource::Local { dockerfile_path: Some(p), .. } => seq![("filename"@, p@)],
        DockerfileSource::GitHub { dockerfile_path: Some(p), .. } => seq![("filename"@, p@)],
        _ => Seq::empty(),
    }
}

/// One `build-arg:<key>` attribute for each build argument, in order.
pub open spec fn build_arg_attrs(args: Seq<Attr>) -> Seq<AttrPair> {
    args.map_values(|a: Attr| ("build-arg:"@ + a.key@, a.value@))
}

/// The `target` attribute: present when a target stage is configured.
pub open spec fn target_attr(target: Option<String>) -> Seq<AttrPair> {
    match target {
        Some(t) => seq![("target"@, t@)],
        None => Seq::empty(),
    }
}

/// The `platform` attribute: the platforms joined by commas, present when
/// there is at least one.
pub open spec fn platform_attr(platforms: Seq<String>) -> Seq<AttrPair> {
    if platforms.len() == 0 {
        Seq::empty()
    } else {
        seq![("platform"@, joined(views(platforms), ","@))]
    }
}

/// The `no-cache` and `image-resolve-mode` attributes, each present when its
/// flag is set.
pub open spec fn flag_attrs(no_cache: bool, pull: bool) -> Seq<AttrPair> {
    (if no_cache {
        seq![("no-cache"@, "true"@)]
    } else {
        Seq::empty()
    }) + (if pull {
        seq![("image-resolve-mode"@, "pull"@)]
    } else {
        Seq::empty()
    })
}

/// The frontend attributes of a build with the given context source, in the
/// order in which they are set.
pub open spec fn frontend_attrs_of(config: BuildConfig, context: Seq<char>) -> Seq<AttrPair> {
    filename_attr(config.source) + build_arg_attrs(config.build_args@) + target_attr(
        config.target,
    ) + platform_attr(config.platforms@) + flag_attrs(config.no_cache, config.pull)
        + seq![("context"@, context)]
}

/// The attributes of the image exporter.
pub open spec fn export_attrs_of(config: BuildConfig) -> Seq<AttrPair> {
    seq![("name"@, joined(views(config.tags@), ","@)), ("push"@, "true"@)] + (
    match config.registry_auth {
        Some(auth) => seq![
            (
                "registry.insecure"@,
                if is_prefix("localhost"@, auth.host@) {
                    "true"@
                } else {
                    "false"@
                },
            ),
        ],
        None => Seq::empty(),
    })
}

/// The exporters of a build: one image exporter when tags are given.
pub open spec fn exporters_of(config: BuildConfig) -> Seq<(Seq<char>, Seq<AttrPair>)> {
    if config.tags@.len() == 0 {
        Seq::empty()
    } else {
        seq![("image"@, export_attrs_of(config))]
    }
}

/// One registry cache import for each source.
pub open spec fn cache_imports_of(sources: Seq<String>) -> Seq<(Seq<char>, Seq<AttrPair>)> {
    sources.map_values(|s: String| ("registry"@, seq![("ref"@, s@)]))
}

/// One registry cache export, in `max` mode, for each destination.
pub open spec fn cache_exports_of(dests: Seq<String>) -> Seq<(Seq<char>, Seq<AttrPair>)> {
    dests.map_values(|s: String| ("registry"@, seq![("ref"@, s@), ("mode"@, "max"@)]))
}

/// The context source of a git build: the repository with the token placed
/// behind every `https://`, then `#` and the reference.
pub open spec fn git_context_of(
    repo_url: Seq<char>,
    git_ref: Option<String>,
    token: Option<String>,
) -> Seq<char> {
    let with_token = match token {
        Some(t) => replaced(repo_url, "https://"@, "https://"@ + t@ + "@"@),
        None => repo_url,
    };
    match git_ref {
        Some(r) => with_token + "#"@ + r@,
        None => with_token,
    }
}

/// The context source of a build, given the absolute path of a local
/// context.
pub open spec fn context_of(source: DockerfileSource, absolute_path: Seq<char>) -> Seq<char> {
    match source {
        DockerfileSource::Local { .. } => "local://"@ + absolute_path,
        DockerfileSource::GitHub { repo_url, git_ref, token, .. } => git_context_of(
            repo_url@,
            git_ref,
            token,
        ),
    }
}

/// The mapping that a list of entries stands for: a later entry takes the
/// place of an earlier one with the same key.
pub open spec fn attr_map(attrs: Seq<AttrPair>) -> Map<Seq<char>, Seq<char>>
    decreases attrs.len(),
{
    if attrs.len() == 0 {
        Map::empty()
    } else {
        attr_map(attrs.drop_last()).insert(attrs.last().0, attrs.last().1)
    }
}

/// The digest among the exporter's answers: what they give to the key
/// `containerimage.digest`.
pub open spec fn digest_of(response: Seq<AttrPair>) -> Option<Seq<char>> {
    if attr_map(response).contains_key("containerimage.digest"@) {
        Some(attr_map(response)["containerimage.digest"@])
    } else {
        None
    }
}

/// Appends one entry to an attribute list.
fn push_attr(out: &mut Vec<Attr>, key: String, value: &str)
    ensures
        attr_views(final(out)@) == attr_views(old(out)@).push((key@, value@)),
{
    let ghost before = out@;
    out.push(Attr { key, value: String::from_str(value) });
    assert(attr_views(out@) =~= attr_views(before).push((key@, value@)));
}

impl BuildConfig {
    /// A build from a local context directory, with nothing else set.
    pub fn local(context_path: &str) -> (r: Self)
        ensures
            r.source matches DockerfileSource::Local { context_path: c, dockerfile_path: None }
                && c@ == context_path@,
            r.build_args@.len() == 0,
            r.target is None,
            r.platforms@.len() == 0,
            r.tags@.len() == 0,
            r.registry_auth is None,
            r.cache_from@.len() == 0,
            r.cache_to@.len() == 0,
            !r.no_cache,
            !r.pull,
    {
        BuildConfig {
            source: DockerfileSource::Local {
                context_path: String::from_str(context_path),
                dockerfile_path: None,
            },
            build_args: Vec::new(),
            target: None,
            platforms: Vec::new(),
            tags: Vec::new(),
            registry_auth: None,
            cache_from: Vec::new(),
            cache_to: Vec::new(),
            no_cache: false,
            pull: false,
        }
    }

    /// A build from a git repository, with nothing else set.
    pub fn github(repo_url: &str) -> (r: Self)
        ensures
            r.source matches DockerfileSource::GitHub {
                repo_url: u,
                git_ref: None,
                token: None,
                dockerfile_path: None,
            } && u@ == repo_url@,
            r.build_args@.len() == 0,
            r.target is None,
            r.platforms@.len() == 0,
            r.tags@.len() == 0,
            r.registry_auth is None,
            r.cache_from@.len() == 0,
            r.cache_to@.len() == 0,
            !r.no_cache,
            !r.pull,
    {
        BuildConfig {
            source: DockerfileSource::GitHub {
                repo_url: String::from_str(repo_url),
                git_ref: None,
                token: None,
                dockerfile_path: None,
            },
            build_args: Vec::new(),
            target: None,
            platforms: Vec::new(),
            tags: Vec::new(),
            registry_auth: None,
            cache_from: Vec::new(),
            cache_to: Vec::new(),
            no_cache: false,
            pull: false,
        }
    }
}

/// Appends the `filename` attribute, where there is one.
fn push_filename(out: &mut Vec<Attr>, source: &DockerfileSource)
    ensures
        attr_views(final(out)@) == attr_views(old(out)@) + filename_attr(*source),
{
    match source {
        DockerfileSource::Local { dockerfile_path: Some(p), .. } => {
            push_attr(out, String::from_str("filename"), p.as_str());
        },
        DockerfileSource::GitHub { dockerfile_path: Some(p), .. } => {
            push_attr(out, String::from_str("filename"), p.as_str());
        },
        _ => {},
    }
    assert(attr_views(out@) =~= attr_views(old(out)@) + filename_attr(*source));
}

/// Appends one attribute for each build argument.
fn push_build_args(out: &mut Vec<Attr>, args: &Vec<Attr>)
    ensures
        attr_views(final(out)@) == attr_views(old(out)@) + build_arg_attrs(args@),
{
    let ghost head = attr_views(out@);
    let mut i: usize = 0;
    assert(attr_views(out@) =~= head + build_arg_attrs(args@).take(0));
    while i < args.len()
        invariant
            i <= args.len(),
            attr_views(out@) == head + build_arg_attrs(args@).take(i as int),
        decreases args.len() - i,
    {
        let arg = &args[i];
        let key = concat2("build-arg:", arg.key.as_str());
        push_attr(out, key, arg.value.as_str());
        assert(head + build_arg_attrs(args@).take(i + 1) =~= (head + build_arg_attrs(args@).take(
            i as int,
        )).push(("build-arg:"@ + arg.key@, arg.value@)));
        i += 1;
    }
    assert(build_arg_attrs(args@).take(i as int) =~= build_arg_attrs(args@));
}

/// Appends the `target` and `platform` attributes, where there are any.
fn push_target_and_platform(out: &mut Vec<Attr>, target: &Option<String>, platforms: &Vec<String>)
    ensures
        attr_views(final(out)@) == attr_views(old(out)@) + target_attr(*target) + platform_attr(
            platforms@,
        ),
{
    match target {
        Some(t) => {
            push_attr(out, String::from_str("target"), t.as_str());
        },
        None => {},
    }
    assert(attr_views(out@) =~= attr_views(old(out)@) + target_attr(*target));
    if platforms.len() > 0 {
        let all = join(platforms, ",");
        push_attr(out, String::from_str("platform"), all.as_str());
    }
    assert(attr_views(out@) =~= attr_views(old(out)@) + target_attr(*target) + platform_attr(
        platforms@,
    ));
}

/// Appends the attributes of the two flags that are set.
fn push_flags(out: &mut Vec<Attr>, no_cache: bool, pull: bool)
    ensures
        attr_views(final(out)@) == attr_views(old(out)@) + flag_attrs(no_cache, pull),
{
    if no_cache {
        push_attr(out, String::from_str("no-cache"), "true");
    }
    if pull {
        push_attr(out, String::from_str("image-resolve-mode"), "pull");
    }
    assert(attr_views(out@) =~= attr_views(old(out)@) + flag_attrs(no_cache, pull));
}

/// The frontend attributes of a build whose context source is `context`.
pub fn frontend_attrs(config: &BuildConfig, context: &str) -> (r: Vec<Attr>)
    ensures
        attr_views(r@) == frontend_attrs_of(*config, context@),
{
    let mut out: Vec<Attr> = Vec::new();
    assert(attr_views(out@) =~= Seq::<AttrPair>::empty());
    push_filename(&mut out, &config.source);
    assert(attr_views(out@) =~= filename_attr(config.source));
    push_build_args(&mut out, &config.build_args);
    push_target_and_platform(&mut out, &config.target, &config.platforms);
    push_flags(&mut out, config.no_cache, config.pull);
    push_attr(&mut out, String::from_str("context"), context);
    out
}

/// The exporters of a build.
pub fn exporters(config: &BuildConfig) -> (r: Vec<Descriptor>)
    ensures
        descriptor_views(r@) == exporters_of(*config),
{
    let mut out: Vec<Descriptor> = Vec::new();
    if config.tags.len() > 0 {
        let mut attrs: Vec<Attr> = Vec::new();
        assert(attr_views(attrs@) =~= Seq::<AttrPair>::empty());
        let names = join(&config.tags, ",");
        push_attr(&mut attrs, String::from_str("name"), names.as_str());
        push_attr(&mut attrs, String::from_str("push"), "true");
        match &config.registry_auth {
            Some(auth) => {
                let insecure = if starts_with(auth.host.as_str(), "localhost") {
                    "true"
                } else {
                    "false"
                };
                push_attr(&mut attrs, String::from_str("registry.insecure"), insecure);
            },
            None => {},
        }
        assert(attr_views(attrs@) =~= export_attrs_of(*config));
        out.push(Descriptor { kind: String::from_str("image"), attrs });
    }
    assert(descriptor_views(out@) =~= exporters_of(*config));
    out
}

/// The cache imports of a build: one per configured source.
pub fn cache_imports(sources: &Vec<String>) -> (r: Vec<Descriptor>)
    ensures
        descriptor_views(r@) == cache_imports_of(sources@),
{
    let mut out: Vec<Descriptor> = Vec::new();
    let mut i: usize = 0;
    while i < sources.len()
        invariant
            i <= sources.len(),
            descriptor_views(out@) =~= cache_imports_of(sources@).take(i as int),
        decreases sources.len() - i,
    {
        let mut attrs: Vec<Attr> = Vec::new();
        assert(attr_views(attrs@) =~= Seq::<AttrPair>::empty());
        push_attr(&mut attrs, String::from_str("ref"), sources[i].as_str());
        assert(attr_views(attrs@) =~= seq![("ref"@, sources@[i as int]@)]);
        let ghost before = descriptor_views(out@);
        out.push(Descriptor { kind: String::from_str("registry"), attrs });
        assert(descriptor_views(out@) =~= before.push(
            ("registry"@, seq![("ref"@, sources@[i as int]@)]),
        ));
        assert(cache_imports_of(sources@).take(i + 1) =~= cache_imports_of(sources@).take(
            i as int,
        ).push(("registry"@, seq![("ref"@, sources@[i as int]@)])));
        i += 1;
    }
    assert(cache_imports_of(sources@).take(i as int) =~= cache_imports_of(sources@));
    out
}

/// The cache exports of a build: one per configured destination.
pub fn cache_exports(dests: &Vec<String>) -> (r: Vec<Descriptor>)
    ensures
        descriptor_views(r@) == cache_exports_of(dests@),
{
    let mut out: Vec<Descriptor> = Vec::new();
    let mut i: usize = 0;
    while i < dests.len()
        invariant
            i <= dests.len(),
            descriptor_views(out@) =~= cache_exports_of(dests@).take(i as int),
        decreases dests.len() - i,
    {
        let mut attrs: Vec<Attr> = Vec::new();
        assert(attr_views(attrs@) =~= Seq::<AttrPair>::empty());
        push_attr(&mut attrs, String::from_str("ref"), dests[i].as_str());
        push_attr(&mut attrs, String::from_str("mode"), "max");
        assert(attr_views(attrs@) =~= seq![("ref"@, dests@[i as int]@), ("mode"@, "max"@)]);
        let ghost before = descriptor_views(out@);
        let ghost item = ("registry"@, seq![("ref"@, dests@[i as int]@), ("mode"@, "max"@)]);
        out.push(Descriptor { kind: String::from_str("registry"), attrs });
        assert(descriptor_views(out@) =~= before.push(item));
        assert(cache_exports_of(dests@).take(i + 1) =~= cache_exports_of(dests@).take(
            i as int,
        ).push(item));
        i += 1;
    }
    assert(cache_exports_of(dests@).take(i as int) =~= cache_exports_of(dests@));
    out
}

/// The context source of a build. `absolute_path` is the resolved path of a
/// local context and is not read for a git build.
pub fn prepare_context(source: &DockerfileSource, absolute_path: &str) -> (r: String)
    ensures
        r@ == context_of(*source, absolute_path@),
{
    match source {
        DockerfileSource::Local { .. } => concat2("local://", absolute_path),
        DockerfileSource::GitHub { repo_url, git_ref, token, .. } => {
            let mut url = match token {
                Some(t) => {
                    let mut with = concat2("https://", t.as_str());
                    with.append("@");
                    proof {
                        reveal_strlit("https://");
                    }
                    replace_all(repo_url.as_str(), "https://", with.as_str())
                },
                None => repo_url.clone(),
            };
            match git_ref {
                Some(r) => {
                    url.append("#");
                    url.append(r.as_str());
                },
                None => {},
            }
            url
        },
    }
}

/// The request that starts the build `build_ref` with the given context
/// source.
pub fn solve_plan(config: &BuildConfig, build_ref: &str, context: &str) -> (r: SolvePlan)
    ensures
        r.build_ref@ == build_ref@,
        r.frontend@ == "dockerfile.v0"@,
        attr_views(r.frontend_attrs@) == frontend_attrs_of(*config, context@),
        descriptor_views(r.exporters@) == exporters_of(*config),
        descriptor_views(r.cache_imports@) == cache_imports_of(config.cache_from@),
        descriptor_views(r.cache_exports@) == cache_exports_of(config.cache_to@),
{
    SolvePlan {
        build_ref: String::from_str(build_ref),
        frontend: String::from_str("dockerfile.v0"),
        frontend_attrs: frontend_attrs(config, context),
        exporters: exporters(config),
        cache_imports: cache_imports(&config.cache_from),
        cache_exports: cache_exports(&config.cache_to),
    }
}

impl BuildResult {
    /// The result of a build, read from what the exporter reported.
    pub fn from_exporter_response(response: Vec<Attr>) -> (r: Self)
        ensures
            r.metadata == response,
            match digest_of(attr_views(response@)) {
                Some(d) => r.digest matches Some(s) && s@ == d,
                None => r.digest is None,
            },
    {
        let ghost all = attr_views(response@);
        let ghost key = "containerimage.digest"@;
        let mut digest: Option<String> = None;
        let mut i: usize = response.len();
        assert(all.take(i as int) =~= all);
        while i > 0
            invariant_except_break
                digest is None,
                i <= response.len(),
                all == attr_views(response@),
                key == "containerimage.digest"@,
                attr_map(all).contains_key(key) == attr_map(all.take(i as int)).contains_key(key),
                attr_map(all).contains_key(key) ==> attr_map(all)[key] == attr_map(
                    all.take(i as int),
                )[key],
            ensures
                match digest_of(all) {
                    Some(d) => digest matches Some(s) && s@ == d,
                    None => digest is None,
                },
            decreases i,
        {
            let ghost upto = all.take(i as int);
            assert(upto.drop_last() =~= all.take(i - 1));
            assert(upto.last() == response@[i - 1]@);
            if same_text(response[i - 1].key.as_str(), "containerimage.digest") {
                digest = Some(response[i - 1].value.clone());
                break;
            }
            i -= 1;
        }
        BuildResult { digest, metadata: response }
    }
}

} // verus!

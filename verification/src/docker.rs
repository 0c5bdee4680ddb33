//! Container recipes: build and push images with Docker or Podman.
//!
//! Which runtime is installed is found out by the caller and passed in.

use vstd::prelude::*;
use crate::error::Error;
use crate::job::{Invocation, Plan};
use crate::map::{OrdMap, assoc_insert};
use crate::runner::{
    invocation, invocation_is, key_spec, key_view, make_cache_key, merge_env, merged_env, single,
    tool_plan, tool_plan_is,
};
use crate::text::{chars_of, extend_str, string_of, sv};
use crate::types::{BuildContext, CacheKey, CacheStrategy, Recipe};

verus! {

/// How to get a container runtime.
pub open spec fn docker_hint() -> Seq<char> {
    "Install Docker: https://docs.docker.com/get-docker/ or Podman: https://podman.io/"@
}

/// Builds an image with `<runtime> build`.
pub struct DockerBuildRecipe {
    pub name: String,
    pub deps: Vec<String>,
    pub image: String,
    pub dockerfile: String,
    pub context: String,
    pub build_args: Vec<String>,
    pub env: OrdMap<String>,
}

/// The flags that identify an image build: image, dockerfile, context, and
/// one `build_arg_<arg>` entry per build argument.
pub open spec fn docker_flags(
    image: Seq<char>,
    dockerfile: Seq<char>,
    context: Seq<char>,
    build_args: Seq<Seq<char>>,
) -> Seq<(Seq<char>, Seq<char>)> {
    merge_env(
        assoc_insert(
            assoc_insert(seq![("image"@, image)], "dockerfile"@, dockerfile),
            "context"@,
            context,
        ),
        build_args.map_values(|a: Seq<char>| ("build_arg_"@ + a, a)),
    )
}

/// The arguments of `build`: tag, dockerfile, each build argument, context.
pub open spec fn docker_build_args(
    image: Seq<char>,
    dockerfile: Seq<char>,
    context: Seq<char>,
    build_args: Seq<Seq<char>>,
) -> Seq<Seq<char>> {
    seq!["build"@, "-t"@, image, "-f"@, dockerfile] + build_args.map_values(
        |a: Seq<char>| seq!["--build-arg"@, a],
    ).flatten() + seq![context]
}

impl DockerBuildRecipe {
    /// A build of `image` from `Dockerfile`-less defaults: dockerfile and
    /// context `.`, no build arguments.
    pub fn new(name: &str, image: &str) -> (r: Self)
        ensures
            r.name@ == name@,
            r.deps@.len() == 0,
            r.image@ == image@,
            r.dockerfile@ == "."@,
            r.context@ == "."@,
            r.build_args@.len() == 0,
            r.env@.len() == 0,
    {
        DockerBuildRecipe {
            name: name.to_owned(),
            deps: Vec::new(),
            image: image.to_owned(),
            dockerfile: ".".to_owned(),
            context: ".".to_owned(),
            build_args: Vec::new(),
            env: OrdMap::new(),
        }
    }

    /// No input files are tracked.
    pub fn inputs(&self, ctx: &BuildContext) -> (r: Result<Vec<String>, Error>)
        ensures
            r matches Ok(v) && v@.len() == 0,
    {
        Ok(Vec::new())
    }

    /// No output files are tracked.
    pub fn outputs(&self, ctx: &BuildContext) -> (r: Result<Vec<String>, Error>)
        ensures
            r matches Ok(v) && v@.len() == 0,
    {
        Ok(Vec::new())
    }

    /// The cache key: name, type tag `docker-build`, context env and the
    /// image's flags.
    pub fn cache_key(&self, ctx: &BuildContext) -> (r: Result<CacheKey, Error>)
        ensures
            r matches Ok(k) && key_view(k) == key_spec(
                self.name@,
                "docker-build"@,
                *ctx,
                ctx.env@,
                ""@,
                docker_flags(self.image@, self.dockerfile@, self.context@, sv(self.build_args@)),
            ),
    {
        Ok(self.key(ctx))
    }

    fn key(&self, ctx: &BuildContext) -> (k: CacheKey)
        ensures
            key_view(k) == key_spec(
                self.name@,
                "docker-build"@,
                *ctx,
                ctx.env@,
                ""@,
                docker_flags(self.image@, self.dockerfile@, self.context@, sv(self.build_args@)),
            ),
    {
        let mut flags = single("image", self.image.clone());
        flags.insert("dockerfile".to_owned(), self.dockerfile.clone());
        flags.insert("context".to_owned(), self.context.clone());
        let ghost base = flags@;
        let ghost pairs = sv(self.build_args@).map_values(|a: Seq<char>| ("build_arg_"@ + a, a));
        let mut i: usize = 0;
        while i < self.build_args.len()
            invariant
                i <= self.build_args@.len(),
                pairs == sv(self.build_args@).map_values(|a: Seq<char>| ("build_arg_"@ + a, a)),
                flags@ == merge_env(base, pairs.take(i as int)),
            decreases self.build_args@.len() - i,
        {
            let arg = &self.build_args[i];
            let mut k = chars_of("build_arg_");
            extend_str(&mut k, arg.as_str());
            flags.insert(string_of(&k), arg.clone());
            assert(pairs.take(i + 1).drop_last() =~= pairs.take(i as int));
            i += 1;
        }
        assert(pairs.take(self.build_args@.len() as int) =~= pairs);
        make_cache_key(self.name.as_str(), "docker-build", ctx, &ctx.env, "", &flags)
    }

    /// The text of a dry run.
    pub open spec fn dry_text(self, runtime: Seq<char>) -> Seq<char> {
        "[dry-run] "@ + runtime + " build -t "@ + self.image@ + " -f "@ + self.dockerfile@ + " "@
            + self.context@
    }

    /// What executing the recipe does with container runtime `runtime`: look
    /// the key up in the cache, then in a dry run report the build command;
    /// otherwise run it in the project root and store the key.
    pub fn plan(&self, ctx: &BuildContext, runtime: &str) -> (p: Plan)
        ensures
            tool_plan_is(
                p,
                self.name@,
                *ctx,
                Some(
                    key_spec(
                        self.name@,
                        "docker-build"@,
                        *ctx,
                        ctx.env@,
                        ""@,
                        docker_flags(self.image@, self.dockerfile@, self.context@, sv(self.build_args@)),
                    ),
                ),
                self.dry_text(runtime@),
            ),
            p.commands@.len() == 1,
            invocation_is(
                p.commands@[0],
                runtime@,
                docker_build_args(self.image@, self.dockerfile@, self.context@, sv(self.build_args@)),
                ctx.project_root@,
                merge_env(ctx.env@, self.env@),
                runtime@,
                docker_hint(),
                runtime@,
            ),
    {
        let key = self.key(ctx);
        let mut t = chars_of("[dry-run] ");
        extend_str(&mut t, runtime);
        extend_str(&mut t, " build -t ");
        extend_str(&mut t, self.image.as_str());
        extend_str(&mut t, " -f ");
        extend_str(&mut t, self.dockerfile.as_str());
        extend_str(&mut t, " ");
        extend_str(&mut t, self.context.as_str());
        let text = string_of(&t);
        let mut args: Vec<String> = Vec::new();
        args.push("build".to_owned());
        args.push("-t".to_owned());
        args.push(self.image.clone());
        args.push("-f".to_owned());
        args.push(self.dockerfile.clone());
        let ghost head = sv(args@);
        assert(head =~= seq!["build"@, "-t"@, self.image@, "-f"@, self.dockerfile@]);
        let ghost nested = sv(self.build_args@).map_values(|a: Seq<char>| seq!["--build-arg"@, a]);
        let mut i: usize = 0;
        while i < self.build_args.len()
            invariant
                i <= self.build_args@.len(),
                nested == sv(self.build_args@).map_values(|a: Seq<char>| seq!["--build-arg"@, a]),
                sv(args@) == head + nested.take(i as int).flatten(),
            decreases self.build_args@.len() - i,
        {
            let ghost before = sv(args@);
            args.push("--build-arg".to_owned());
            args.push(self.build_args[i].clone());
            proof {
                let t = nested.take(i + 1);
                assert(t =~= nested.take(i as int).push(nested[i as int]));
                t.drop_last().lemma_flatten_push(nested[i as int]);
                assert(t.drop_last() =~= nested.take(i as int));
                assert(sv(args@) =~= before + nested[i as int]);
            }
            i += 1;
        }
        assert(nested.take(self.build_args@.len() as int) =~= nested);
        args.push(self.context.clone());
        let ghost all = args@;
        assert(sv(all) =~= docker_build_args(
            self.image@,
            self.dockerfile@,
            self.context@,
            sv(self.build_args@),
        ));
        let mut commands: Vec<Invocation> = Vec::new();
        commands.push(
            invocation(
                runtime,
                args,
                ctx.project_root.clone(),
                ctx,
                &self.env,
                runtime,
                "Install Docker: https://docs.docker.com/get-docker/ or Podman: https://podman.io/",
                runtime,
            ),
        );
        tool_plan(self.name.as_str(), ctx, Some(key), text, commands)
    }
}

impl Recipe for DockerBuildRecipe {
    fn name(&self) -> (r: &str)
        ensures
            r@ == self.name@,
    {
        self.name.as_str()
    }

    fn deps(&self) -> (r: &[String])
        ensures
            r@ == self.deps@,
    {
        self.deps.as_slice()
    }

    fn cache_strategy(&self) -> (r: CacheStrategy)
        ensures
            r == CacheStrategy::Hash,
    {
        CacheStrategy::Hash
    }
}

/// Pushes an image with `<runtime> push`.
pub struct DockerPushRecipe {
    pub name: String,
    pub deps: Vec<String>,
    pub image: String,
    pub env: OrdMap<String>,
}

impl DockerPushRecipe {
    pub fn new(name: &str, image: &str) -> (r: Self)
        ensures
            r.name@ == name@,
            r.deps@.len() == 0,
            r.image@ == image@,
            r.env@.len() == 0,
    {
        DockerPushRecipe {
            name: name.to_owned(),
            deps: Vec::new(),
            image: image.to_owned(),
            env: OrdMap::new(),
        }
    }

    /// No input files are tracked.
    pub fn inputs(&self, ctx: &BuildContext) -> (r: Result<Vec<String>, Error>)
        ensures
            r matches Ok(v) && v@.len() == 0,
    {
        Ok(Vec::new())
    }

    /// No output files are tracked.
    pub fn outputs(&self, ctx: &BuildContext) -> (r: Result<Vec<String>, Error>)
        ensures
            r matches Ok(v) && v@.len() == 0,
    {
        Ok(Vec::new())
    }

    /// The cache key: name, type tag `docker-push`, context env and image.
    pub fn cache_key(&self, ctx: &BuildContext) -> (r: Result<CacheKey, Error>)
        ensures
            r matches Ok(k) && key_view(k) == key_spec(
                self.name@,
                "docker-push"@,
                *ctx,
                ctx.env@,
                ""@,
                seq![("image"@, self.image@)],
            ),
    {
        let flags = single("image", self.image.clone());
        Ok(make_cache_key(self.name.as_str(), "docker-push", ctx, &ctx.env, "", &flags))
    }

    /// What executing the recipe does with container runtime `runtime`: in a
    /// dry run report the push; otherwise push the image.
    pub fn plan(&self, ctx: &BuildContext, runtime: &str) -> (p: Plan)
        ensures
            tool_plan_is(
                p,
                self.name@,
                *ctx,
                None,
                "[dry-run] "@ + runtime@ + " push "@ + self.image@,
            ),
            p.commands@.len() == 1,
            invocation_is(
                p.commands@[0],
                runtime@,
                seq!["push"@, self.image@],
                ctx.project_root@,
                merge_env(ctx.env@, self.env@),
                runtime@,
                docker_hint(),
                runtime@,
            ),
    {
        let mut t = chars_of("[dry-run] ");
        extend_str(&mut t, runtime);
        extend_str(&mut t, " push ");
        extend_str(&mut t, self.image.as_str());
        let text = string_of(&t);
        let mut args: Vec<String> = Vec::new();
        args.push("push".to_owned());
        args.push(self.image.clone());
        let ghost a = args@;
        assert(sv(a) =~= seq!["push"@, self.image@]);
        let mut commands: Vec<Invocation> = Vec::new();
        commands.push(
            invocation(
                runtime,
                args,
                ctx.project_root.clone(),
                ctx,
                &self.env,
                runtime,
                "Install Docker: https://docs.docker.com/get-docker/ or Podman: https://podman.io/",
                runtime,
            ),
        );
        tool_plan(self.name.as_str(), ctx, None, text, commands)
    }
}

impl Recipe for DockerPushRecipe {
    fn name(&self) -> (r: &str)
        ensures
            r@ == self.name@,
    {
        self.name.as_str()
    }

    fn deps(&self) -> (r: &[String])
        ensures
            r@ == self.deps@,
    {
        self.deps.as_slice()
    }

    fn cache_strategy(&self) -> (r: CacheStrategy)
        ensures
            r == CacheStrategy::Never,
    {
        CacheStrategy::Never
    }
}

} // verus!

//! Built-in benchmark configuration for running the Praxis proxy, either
//! through cargo or inside a Docker container.

use vstd::prelude::*;

use crate::text::concat;

verus! {

/// The arguments of `cargo` that run the proxy with `config`.
pub open spec fn cargo_args(config: Seq<char>) -> Seq<Seq<char>> {
    seq!["run"@, "--release"@, "-p"@, "praxis"@, "--"@, "-c"@, config]
}

/// The arguments of `docker` that run `image` with `config_abs` mounted
/// read-only as the proxy configuration.
pub open spec fn docker_args(config_abs: Seq<char>, image: Seq<char>) -> Seq<Seq<char>> {
    seq![
        "run"@,
        "--rm"@,
        "--name"@,
        "praxis-bench-praxis"@,
        "--network"@,
        "host"@,
        "--cpus=4.0"@,
        "--memory=2g"@,
        "-v"@,
        config_abs + ":/etc/praxis/config.yaml:ro"@,
        image,
    ]
}

/// The texts of a list of strings.
pub open spec fn texts(v: Seq<String>) -> Seq<Seq<char>> {
    v.map_values(|s: String| s@)
}

/// Build a Docker run command for the Praxis benchmark; `config_abs` is the
/// configuration file's path as it should be mounted (normally absolute).
pub fn docker_command(config_abs: &str, image: &str) -> (r: (String, Vec<String>))
    ensures
        r.0@ == "docker"@,
        texts(r.1@) == docker_args(config_abs@, image@),
{
    let args = vec![
        "run".to_owned(),
        "--rm".to_owned(),
        "--name".to_owned(),
        "praxis-bench-praxis".to_owned(),
        "--network".to_owned(),
        "host".to_owned(),
        "--cpus=4.0".to_owned(),
        "--memory=2g".to_owned(),
        "-v".to_owned(),
        concat(config_abs, ":/etc/praxis/config.yaml:ro"),
        image.to_owned(),
    ];
    assert(texts(args@) =~= docker_args(config_abs@, image@));
    ("docker".to_owned(), args)
}

/// Build a cargo run command for the Praxis benchmark.
pub fn cargo_command(config: &str) -> (r: (String, Vec<String>))
    ensures
        r.0@ == "cargo"@,
        texts(r.1@) == cargo_args(config@),
{
    let args = vec![
        "run".to_owned(),
        "--release".to_owned(),
        "-p".to_owned(),
        "praxis".to_owned(),
        "--".to_owned(),
        "-c".to_owned(),
        config.to_owned(),
    ];
    assert(texts(args@) =~= cargo_args(config@));
    ("cargo".to_owned(), args)
}

/// Built-in benchmark configuration for Praxis.
pub struct PraxisConfig {
    /// Path to the Praxis YAML config file.
    pub config: String,
    /// Listen address (defaults to "127.0.0.1:8080").
    pub address: String,
    /// Optional Docker image override. When set, runs via docker instead of cargo.
    pub image: Option<String>,
}

impl PraxisConfig {
    /// The proxy's name.
    pub fn name(&self) -> (r: &'static str)
        ensures
            r@ == "praxis"@,
    {
        "praxis"
    }

    /// The address the proxy listens on.
    pub fn listen_address(&self) -> (r: &str)
        ensures
            r@ == self.address@,
    {
        self.address.as_str()
    }

    /// The command that starts the proxy: docker when an image is set,
    /// cargo otherwise. `resolved_config` is the configuration path as the
    /// container mounts it: the canonical absolute path when the file
    /// exists, else the path as given. The caller resolves it, since the
    /// file system is not read here; cargo uses the path as given.
    pub fn start_command(&self, resolved_config: &str) -> (r: (String, Vec<String>))
        ensures
            self.image matches Some(image) ==> r.0@ == "docker"@ && texts(r.1@) == docker_args(
                resolved_config@,
                image@,
            ),
            self.image is None ==> r.0@ == "cargo"@ && texts(r.1@) == cargo_args(self.config@),
    {
        match &self.image {
            Some(image) => docker_command(resolved_config, image.as_str()),
            None => cargo_command(self.config.as_str()),
        }
    }

    /// Path to the proxy's configuration file.
    pub fn config_path(&self) -> (r: &str)
        ensures
            r@ == self.config@,
    {
        self.config.as_str()
    }

    /// The container's name when the proxy runs in Docker.
    pub fn container_name(&self) -> (r: Option<&'static str>)
        ensures
            r is Some <==> self.image is Some,
            r matches Some(n) ==> n@ == "praxis-bench-praxis"@,
    {
        if self.image.is_some() {
            Some("praxis-bench-praxis")
        } else {
            None
        }
    }
}

} // verus!

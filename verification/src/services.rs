//! The containers of the end-to-end setup: a Zebra validator, a Zaino
//! indexer that follows it, and a zcashd node; the Docker network that joins
//! them; and how each one's readiness is read from its log.

use vstd::prelude::*;
use crate::container::{ContainerSpec, ContainerSpecView, PortMapping};
use crate::ip::{ip_text, push_decimal, radix_text, IpAddress};
use crate::text::{chars_of, has_substring, lemma_substituted_holds_replacement, occurs_at, replace_all, substituted};
use crate::startup::ReadinessProbe;

verus! {

/// The port on which Zebra serves JSON-RPC, in the container and on the host.
pub const ZEBRA_RPC_PORT: u16 = 8237;

/// The Docker network that the containers share.
pub open spec fn e2e_network_name() -> Seq<char> {
    "zingo-net"@
}

/// The address at which Zaino reaches the validator's JSON-RPC server.
pub open spec fn validator_rpc_address(ip: IpAddress) -> Seq<char> {
    ip_text(ip) + ":"@ + radix_text(ZEBRA_RPC_PORT as nat, 10)
}

/// The request that starts the Zebra validator.
pub open spec fn zebrad_view() -> ContainerSpecView {
    ContainerSpecView {
        image: "zebrad"@,
        tag: "test"@,
        env: Map::empty().insert("NETWORK"@, "Regtest"@).insert("ENABLE_COOKIE_AUTH"@, "false"@).insert(
            "ZEBRA_RPC_PORT"@,
            radix_text(ZEBRA_RPC_PORT as nat, 10),
        ),
        cmd: Seq::empty(),
        network: Some(e2e_network_name()),
        container_name: Some("zebrad"@),
        ports: seq![PortMapping { host_port: ZEBRA_RPC_PORT, container_port: ZEBRA_RPC_PORT }],
        mounts: Seq::empty(),
    }
}

/// The text of a port number.
fn port_text(port: u16) -> (s: String)
    ensures
        s@ == radix_text(port as nat, 10),
{
    let mut s = String::new();
    push_decimal(&mut s, port);
    proof {
        assert(s@ =~= radix_text(port as nat, 10));
    }
    s
}

/// The request that starts the Zebra validator on Regtest, without cookie
/// authentication, serving JSON-RPC on [`ZEBRA_RPC_PORT`], which is also
/// published on the host; the container is named `zebrad` and joins the
/// shared network.
pub fn zebrad_container() -> (c: ContainerSpec)
    ensures
        c@ == zebrad_view(),
{
    let c = ContainerSpec::new("zebrad", "test")
        .with_env_var("NETWORK".to_owned(), "Regtest".to_owned())
        .with_env_var("ENABLE_COOKIE_AUTH".to_owned(), "false".to_owned())
        .with_env_var("ZEBRA_RPC_PORT".to_owned(), port_text(ZEBRA_RPC_PORT))
        .with_mapped_port(ZEBRA_RPC_PORT, ZEBRA_RPC_PORT)
        .with_network("zingo-net".to_owned())
        .with_container_name("zebrad".to_owned());
    proof {
        assert(c@.ports =~= zebrad_view().ports);
    }
    c
}

/// The request that starts a zcashd node on Regtest, without cookie
/// authentication and with the acknowledgement that zcashd requires.
pub fn zcashd_container() -> (c: ContainerSpec)
    ensures
        c@ == (ContainerSpecView {
            image: "zcashd"@,
            tag: "test"@,
            env: Map::empty().insert("ZCASHD_NETWORK"@, "regtest"@).insert(
                "ZCASHD_ACK_FLAG"@,
                "-i-am-aware-zcashd-will-be-replaced-by-zebrad-and-zallet-in-2025=1"@,
            ).insert("ENABLE_COOKIE_AUTH"@, "false"@),
            cmd: Seq::empty(),
            network: None,
            container_name: None,
            ports: Seq::empty(),
            mounts: Seq::empty(),
        }),
{
    ContainerSpec::new("zcashd", "test")
        .with_env_var("ZCASHD_NETWORK".to_owned(), "regtest".to_owned())
        .with_env_var(
            "ZCASHD_ACK_FLAG".to_owned(),
            "-i-am-aware-zcashd-will-be-replaced-by-zebrad-and-zallet-in-2025=1".to_owned(),
        )
        .with_env_var("ENABLE_COOKIE_AUTH".to_owned(), "false".to_owned())
}

/// A Docker network to create.
pub struct NetworkSpec {
    pub name: String,
    pub driver: String,
    /// Refuse to create a second network of the same name.
    pub check_duplicate: bool,
}

/// The bridge network that joins the containers.
pub fn e2e_network() -> (n: NetworkSpec)
    ensures
        n.name@ == e2e_network_name(),
        n.driver@ == "bridge"@,
        n.check_duplicate,
{
    NetworkSpec { name: "zingo-net".to_owned(), driver: "bridge".to_owned(), check_duplicate: true }
}

/// Path `base` followed by the relative path `name`, with one separator
/// between them unless `base` is empty or already ends with one.
pub open spec fn joined(base: Seq<char>, name: Seq<char>) -> Seq<char> {
    if base.len() == 0 {
        name
    } else if base.last() == '/' {
        base + name
    } else {
        base + "/"@ + name
    }
}

/// Path `base` followed by the relative path `name`.
fn join_relative(base: &str, name: &str) -> (p: String)
    ensures
        p@ == joined(base@, name@),
{
    let chars = chars_of(base);
    let mut p = base.to_owned();
    if chars.len() > 0 && chars[chars.len() - 1] != '/' {
        p.append("/");
    }
    p.append(name);
    p
}

/// Where the Zaino container's files live on the host, under the project
/// directory.
pub struct ZainoLayout {
    /// Configuration directory, bound at `/config`.
    pub config_dir: String,
    /// Validator cookie file, bound at `/home/zaino/.cookie`.
    pub cookie_file: String,
    /// Data directory, bound at `/var/lib/zaino`.
    pub data_dir: String,
}

/// The host paths for Zaino under the project directory `project_dir`:
/// `config`, `config/.cookie` and `zaino-data`.
pub fn zaino_layout(project_dir: &str) -> (l: ZainoLayout)
    ensures
        l.config_dir@ == joined(project_dir@, "config"@),
        l.cookie_file@ == joined(joined(project_dir@, "config"@), ".cookie"@),
        l.data_dir@ == joined(project_dir@, "zaino-data"@),
{
    let config_dir = join_relative(project_dir, "config");
    let cookie_file = join_relative(config_dir.as_str(), ".cookie");
    let data_dir = join_relative(project_dir, "zaino-data");
    ZainoLayout { config_dir, cookie_file, data_dir }
}

/// The request that starts the Zaino indexer.
pub open spec fn zaino_view(ip: IpAddress, config_dir: Seq<char>, cookie_file: Seq<char>, data_dir: Seq<char>)
    -> ContainerSpecView {
    ContainerSpecView {
        image: "zainod"@,
        tag: "test"@,
        env: Map::empty().insert("ZCASH_RPC_URL"@, validator_rpc_address(ip)),
        cmd: seq!["zainod"@, "--config"@, "/config/zindexer.toml"@],
        network: Some(e2e_network_name()),
        container_name: None,
        ports: Seq::empty(),
        mounts: seq![
            (config_dir, "/config"@),
            (cookie_file, "/home/zaino/.cookie"@),
            (data_dir, "/var/lib/zaino"@),
        ],
    }
}

/// The text of the validator's JSON-RPC address for the validator at `ip`.
pub fn validator_address_text(ip: &IpAddress) -> (s: String)
    ensures
        s@ == validator_rpc_address(*ip),
{
    let mut s = ip.text();
    s.append(":");
    push_decimal(&mut s, ZEBRA_RPC_PORT);
    s
}

/// The request that starts the Zaino indexer against the validator at
/// `validator_ip`: it runs `zainod --config /config/zindexer.toml`, finds
/// the validator through `ZCASH_RPC_URL`, joins the shared network, and has
/// its configuration directory, the validator's cookie and its data
/// directory bound from the host.
pub fn zaino_container(validator_ip: &IpAddress, layout: &ZainoLayout) -> (c: ContainerSpec)
    ensures
        c@ == zaino_view(*validator_ip, layout.config_dir@, layout.cookie_file@, layout.data_dir@),
{
    let mut cmd: Vec<String> = Vec::new();
    cmd.push("zainod".to_owned());
    cmd.push("--config".to_owned());
    cmd.push("/config/zindexer.toml".to_owned());
    let c = ContainerSpec::new("zainod", "test")
        .with_env_var("ZCASH_RPC_URL".to_owned(), validator_address_text(validator_ip))
        .with_cmd(cmd)
        .with_network("zingo-net".to_owned())
        .with_bind_mount(layout.config_dir.clone(), "/config".to_owned())
        .with_bind_mount(layout.cookie_file.clone(), "/home/zaino/.cookie".to_owned())
        .with_bind_mount(layout.data_dir.clone(), "/var/lib/zaino".to_owned());
    proof {
        assert(c@.cmd =~= zaino_view(*validator_ip, layout.config_dir@, layout.cookie_file@, layout.data_dir@).cmd);
        assert(c@.mounts =~= zaino_view(*validator_ip, layout.config_dir@, layout.cookie_file@, layout.data_dir@).mounts);
    }
    c
}

/// The template of Zaino's configuration file; the validator's address
/// stands in it as `${VALIDATOR_LISTEN_ADDRESS}`.
pub const ZINDEXER_TEMPLATE: &'static str = r#"
# Configuration for Zaino

# Backend:
backend = "fetch"

# JsonRPC server config:
enable_json_server = false
json_rpc_listen_address = "localhost:8232"
enable_cookie_auth = false
cookie_dir = "None"

# gRPC server config:
grpc_listen_address = "localhost:8137"
grpc_tls = false
tls_cert_path = "None"
tls_key_path = "None"

# JsonRPC client config:
validator_listen_address = "${VALIDATOR_LISTEN_ADDRESS}"
validator_cookie_auth = true
validator_cookie_path = "/home/zaino/.cookie"
validator_user = "xxxxxx"
validator_password = "xxxxxx"

# Mempool, Non-Finalised State and Finalised State config:
map_capacity = "None"
map_shard_amount = "None"
zaino_db_path = "/home/zaino/.cache/zaino/"
zebra_db_path = "/home/zaino/.cache/zebra/"
db_size = "None"

# Network:
network = "Regtest"

# Options:
no_sync = false
no_db = false
slow_sync = false
"#;

/// Zaino's configuration file for the validator at `validator_ip`: the
/// template with every `${VALIDATOR_LISTEN_ADDRESS}` replaced by the
/// validator's JSON-RPC address.
pub fn zindexer_config(validator_ip: &IpAddress) -> (cfg: String)
    ensures
        cfg@ == substituted(ZINDEXER_TEMPLATE@, "${VALIDATOR_LISTEN_ADDRESS}"@, validator_rpc_address(*validator_ip)),
{
    let address = validator_address_text(validator_ip);
    replace_all(ZINDEXER_TEMPLATE, "${VALIDATOR_LISTEN_ADDRESS}", address.as_str())
}

/// Where the placeholder and the cookie path stand in the configuration
/// template.
proof fn lemma_template_layout()
    ensures
        occurs_at(ZINDEXER_TEMPLATE@, "${VALIDATOR_LISTEN_ADDRESS}"@, 378),
        occurs_at(ZINDEXER_TEMPLATE@, "validator_cookie_path = \"/home/zaino/.cookie\""@, 436),
{
    // The solver sees the template's characters only through its literal.
    reveal_strlit("${VALIDATOR_LISTEN_ADDRESS}");
    reveal_strlit("validator_cookie_path = \"/home/zaino/.cookie\"");
    reveal_strlit(r#"
# Configuration for Zaino

# Backend:
backend = "fetch"

# JsonRPC server config:
enable_json_server = false
json_rpc_listen_address = "localhost:8232"
enable_cookie_auth = false
cookie_dir = "None"

# gRPC server config:
grpc_listen_address = "localhost:8137"
grpc_tls = false
tls_cert_path = "None"
tls_key_path = "None"

# JsonRPC client config:
validator_listen_address = "${VALIDATOR_LISTEN_ADDRESS}"
validator_cookie_auth = true
validator_cookie_path = "/home/zaino/.cookie"
validator_user = "xxxxxx"
validator_password = "xxxxxx"

# Mempool, Non-Finalised State and Finalised State config:
map_capacity = "None"
map_shard_amount = "None"
zaino_db_path = "/home/zaino/.cache/zaino/"
zebra_db_path = "/home/zaino/.cache/zebra/"
db_size = "None"

# Network:
network = "Regtest"

# Options:
no_sync = false
no_db = false
slow_sync = false
"#);
    assert(ZINDEXER_TEMPLATE@ == r#"
# Configuration for Zaino

# Backend:
backend = "fetch"

# JsonRPC server config:
enable_json_server = false
json_rpc_listen_address = "localhost:8232"
enable_cookie_auth = false
cookie_dir = "None"

# gRPC server config:
grpc_listen_address = "localhost:8137"
grpc_tls = false
tls_cert_path = "None"
tls_key_path = "None"

# JsonRPC client config:
validator_listen_address = "${VALIDATOR_LISTEN_ADDRESS}"
validator_cookie_auth = true
validator_cookie_path = "/home/zaino/.cookie"
validator_user = "xxxxxx"
validator_password = "xxxxxx"

# Mempool, Non-Finalised State and Finalised State config:
map_capacity = "None"
map_shard_amount = "None"
zaino_db_path = "/home/zaino/.cache/zaino/"
zebra_db_path = "/home/zaino/.cache/zebra/"
db_size = "None"

# Network:
network = "Regtest"

# Options:
no_sync = false
no_db = false
slow_sync = false
"#@);
    assert(ZINDEXER_TEMPLATE@.subrange(378int, 405int) =~= "${VALIDATOR_LISTEN_ADDRESS}"@);
    assert(ZINDEXER_TEMPLATE@.subrange(436int, 481int) =~= "validator_cookie_path = \"/home/zaino/.cookie\""@);
}

/// Zaino's configuration file names the validator's JSON-RPC address:
/// the template holds the placeholder, which substitution replaces.
pub proof fn lemma_config_names_validator(ip: IpAddress)
    ensures
        has_substring(
            substituted(ZINDEXER_TEMPLATE@, "${VALIDATOR_LISTEN_ADDRESS}"@, validator_rpc_address(ip)),
            validator_rpc_address(ip),
        ),
{
    reveal_strlit("${VALIDATOR_LISTEN_ADDRESS}");
    lemma_template_layout();
    lemma_substituted_holds_replacement(
        ZINDEXER_TEMPLATE@,
        "${VALIDATOR_LISTEN_ADDRESS}"@,
        validator_rpc_address(ip),
    );
}

/// The request that starts Zaino, for every validator address and every
/// layout: image `zainod:test`; the command `zainod --config
/// /config/zindexer.toml`; the validator's address, and nothing else, in
/// the environment; the shared network; no name and no published port; and
/// exactly three bind mounts, in order: the configuration directory at
/// `/config`, the cookie file at `/home/zaino/.cookie` (the path that the
/// configuration template gives as the validator's cookie) and the data
/// directory at `/var/lib/zaino`.
pub proof fn lemma_zaino_request(ip: IpAddress, config_dir: Seq<char>, cookie_file: Seq<char>, data_dir: Seq<char>)
    ensures
        ({
            let z = zaino_view(ip, config_dir, cookie_file, data_dir);
            &&& z.image == "zainod"@
            &&& z.tag == "test"@
            &&& z.cmd.len() == 3
            &&& z.cmd[0] == "zainod"@
            &&& z.cmd[1] == "--config"@
            &&& z.cmd[2] == "/config/zindexer.toml"@
            &&& z.env.dom() == set!["ZCASH_RPC_URL"@]
            &&& z.env["ZCASH_RPC_URL"@] == ip_text(ip) + ":"@ + radix_text(ZEBRA_RPC_PORT as nat, 10)
            &&& z.network == Some("zingo-net"@)
            &&& z.container_name is None
            &&& z.ports.len() == 0
            &&& z.mounts.len() == 3
            &&& z.mounts[0] == (config_dir, "/config"@)
            &&& z.mounts[1] == (cookie_file, "/home/zaino/.cookie"@)
            &&& z.mounts[2] == (data_dir, "/var/lib/zaino"@)
            &&& has_substring(ZINDEXER_TEMPLATE@, "validator_cookie_path = \""@ + z.mounts[1].1 + "\""@)
        }),
{
    let z = zaino_view(ip, config_dir, cookie_file, data_dir);
    assert(z.env.dom() =~= set!["ZCASH_RPC_URL"@]);
    lemma_template_layout();
    reveal_strlit("validator_cookie_path = \"/home/zaino/.cookie\"");
    reveal_strlit("validator_cookie_path = \"");
    reveal_strlit("/home/zaino/.cookie");
    reveal_strlit("\"");
    assert("validator_cookie_path = \""@ + "/home/zaino/.cookie"@ + "\""@
        =~= "validator_cookie_path = \"/home/zaino/.cookie\""@);
    assert(occurs_at(ZINDEXER_TEMPLATE@, "validator_cookie_path = \""@ + z.mounts[1].1 + "\""@, 436));
}

/// The request that starts Zebra: image `zebrad:test`; the image's own
/// command; Regtest, no cookie authentication and JSON-RPC on
/// [`ZEBRA_RPC_PORT`] (written in decimal), and nothing else, in the
/// environment; the shared network; the name `zebrad`; that port published
/// on the host under the same number, and no other; and no mount.
pub proof fn lemma_zebrad_request()
    ensures
        ({
            let z = zebrad_view();
            &&& z.image == "zebrad"@
            &&& z.tag == "test"@
            &&& z.cmd.len() == 0
            &&& z.env.dom() == set!["NETWORK"@, "ENABLE_COOKIE_AUTH"@, "ZEBRA_RPC_PORT"@]
            &&& z.env["NETWORK"@] == "Regtest"@
            &&& z.env["ENABLE_COOKIE_AUTH"@] == "false"@
            &&& z.env["ZEBRA_RPC_PORT"@] == "8237"@
            &&& z.network == Some("zingo-net"@)
            &&& z.container_name == Some("zebrad"@)
            &&& z.ports.len() == 1
            &&& z.ports[0].host_port == 8237
            &&& z.ports[0].container_port == 8237
            &&& z.mounts.len() == 0
        }),
{
    reveal_strlit("NETWORK");
    reveal_strlit("ENABLE_COOKIE_AUTH");
    reveal_strlit("ZEBRA_RPC_PORT");
    reveal_strlit("8237");
    reveal_strlit("0123456789abcdef");
    let z = zebrad_view();
    assert(z.env.dom() =~= set!["NETWORK"@, "ENABLE_COOKIE_AUTH"@, "ZEBRA_RPC_PORT"@]);
    assert("NETWORK"@.len() == 7);
    assert("ENABLE_COOKIE_AUTH"@.len() == 18);
    assert("ZEBRA_RPC_PORT"@.len() == 14);
    assert("NETWORK"@ != "ENABLE_COOKIE_AUTH"@);
    assert("NETWORK"@ != "ZEBRA_RPC_PORT"@);
    assert("ENABLE_COOKIE_AUTH"@ != "ZEBRA_RPC_PORT"@);
    assert(radix_text(823, 10) == radix_text(82, 10).push('3'));
    assert(radix_text(82, 10) == radix_text(8, 10).push('2'));
    assert(radix_text(8237, 10) == radix_text(823, 10).push('7'));
    assert(radix_text(8237, 10) =~= "8237"@);
}

/// Joining a relative path: after a non-empty base that does not end in
/// `/`, a single `/` separates the two, however long the base; after a
/// base ending in `/`, none is added; an empty base gives the name alone.
pub proof fn lemma_joined(base: Seq<char>, name: Seq<char>)
    ensures
        base.len() > 0 && base.last() != '/' ==> joined(base, name) == base + seq!['/'] + name,
        base.len() > 0 && base.last() == '/' ==> joined(base, name) == base + name,
        base.len() == 0 ==> joined(base, name) == name,
{
    reveal_strlit("/");
    assert("/"@ =~= seq!['/']);
}

/// Zaino's host paths under a project directory that is not empty and does
/// not end in `/`, whatever its length: `<dir>/config`,
/// `<dir>/config/.cookie` and `<dir>/zaino-data`.
pub proof fn lemma_zaino_layout_paths(project_dir: Seq<char>)
    requires
        project_dir.len() > 0,
        project_dir.last() != '/',
    ensures
        joined(project_dir, "config"@) == project_dir + "/config"@,
        joined(joined(project_dir, "config"@), ".cookie"@) == project_dir + "/config/.cookie"@,
        joined(project_dir, "zaino-data"@) == project_dir + "/zaino-data"@,
{
    reveal_strlit("/");
    reveal_strlit("config");
    reveal_strlit(".cookie");
    reveal_strlit("zaino-data");
    reveal_strlit("/config");
    reveal_strlit("/config/.cookie");
    reveal_strlit("/zaino-data");
    let c = project_dir + "/"@ + "config"@;
    assert(c =~= project_dir + "/config"@);
    assert(c.last() == 'g');
    assert(c + "/"@ + ".cookie"@ =~= project_dir + "/config/.cookie"@);
    assert(project_dir + "/"@ + "zaino-data"@ =~= project_dir + "/zaino-data"@);
}

/// Zebra is ready once it reports being close to the tip at height 0; its
/// log is printed while waiting, for up to 10 seconds.
pub fn zebrad_readiness() -> (p: ReadinessProbe)
    ensures
        p.marker@ == "Zebra is close to the tip tip_height=Height(0)"@,
        p.timeout_secs == 10,
        p.echo_lines,
        p.found_note@ == "\u{2705} Log message found."@,
{
    ReadinessProbe {
        marker: "Zebra is close to the tip tip_height=Height(0)".to_owned(),
        timeout_secs: 10,
        echo_lines: true,
        found_note: "\u{2705} Log message found.".to_owned(),
    }
}

/// Zaino is ready once its indexer reports a successful start; its log is
/// printed while waiting, for up to 10 seconds.
pub fn zaino_readiness() -> (p: ReadinessProbe)
    ensures
        p.marker@ == "Zaino Indexer started successfully."@,
        p.timeout_secs == 10,
        p.echo_lines,
        p.found_note@ == "Log message found."@,
{
    ReadinessProbe {
        marker: "Zaino Indexer started successfully.".to_owned(),
        timeout_secs: 10,
        echo_lines: true,
        found_note: "Log message found.".to_owned(),
    }
}

/// Zaino can reach Zebra: the two containers join the same network; the
/// address that Zaino is given for the validator (in its environment and in
/// its configuration file) is the validator's IP followed by the port on
/// which Zebra is told to serve JSON-RPC; and Zebra publishes that port on
/// the host under the same number.
pub proof fn lemma_zaino_reaches_zebra(
    ip: IpAddress,
    config_dir: Seq<char>,
    cookie_file: Seq<char>,
    data_dir: Seq<char>,
)
    ensures
        ({
            let zebra = zebrad_view();
            let zaino = zaino_view(ip, config_dir, cookie_file, data_dir);
            &&& zebra.network == zaino.network
            &&& zebra.network == Some(e2e_network_name())
            &&& zebra.env.contains_key("ZEBRA_RPC_PORT"@)
            &&& zebra.env["ZEBRA_RPC_PORT"@] == radix_text(ZEBRA_RPC_PORT as nat, 10)
            &&& zaino.env.contains_key("ZCASH_RPC_URL"@)
            &&& zaino.env["ZCASH_RPC_URL"@] == ip_text(ip) + ":"@ + zebra.env["ZEBRA_RPC_PORT"@]
            &&& zaino.env["ZCASH_RPC_URL"@] == validator_rpc_address(ip)
            &&& zebra.ports.contains(PortMapping { host_port: ZEBRA_RPC_PORT, container_port: ZEBRA_RPC_PORT })
        }),
{
    let zebra = zebrad_view();
    assert(zebra.ports[0] == PortMapping { host_port: ZEBRA_RPC_PORT, container_port: ZEBRA_RPC_PORT });
}

} // verus!

//! What is asked of Docker when a container is started: image, environment,
//! command, network, name, published ports and bind mounts.

use vstd::prelude::*;

verus! {

/// The environment that a list of `(name, value)` settings gives, applied
/// in order: a later setting of a name overrides an earlier one.
pub open spec fn env_of(entries: Seq<(Seq<char>, Seq<char>)>) -> Map<Seq<char>, Seq<char>>
    decreases entries.len(),
{
    if entries.len() == 0 {
        Map::empty()
    } else {
        env_of(entries.drop_last()).insert(entries.last().0, entries.last().1)
    }
}

/// No name is set twice in `entries`.
pub open spec fn names_distinct(entries: Seq<(Seq<char>, Seq<char>)>) -> bool {
    forall|i: int, j: int| 0 <= i < j < entries.len() ==> #[trigger] entries[i].0 != #[trigger] entries[j].0
}

/// The views of a list of settings.
pub open spec fn entries_view(v: Seq<(String, String)>) -> Seq<(Seq<char>, Seq<char>)> {
    v.map_values(|e: (String, String)| (e.0@, e.1@))
}

/// A host port published as a container's TCP port.
#[derive(Clone, Copy, Debug, PartialEq, Eq, Structural)]
pub struct PortMapping {
    pub host_port: u16,
    pub container_port: u16,
}

/// A host path bound read-write into a container.
pub struct BindMount {
    pub host_path: String,
    pub container_path: String,
}

/// The view of a [`BindMount`]: host path, then container path.
pub open spec fn mount_view(m: BindMount) -> (Seq<char>, Seq<char>) {
    (m.host_path@, m.container_path@)
}

/// A request to start a container.
pub struct ContainerSpec {
    image: String,
    tag: String,
    env: Vec<(String, String)>,
    cmd: Vec<String>,
    network: Option<String>,
    container_name: Option<String>,
    ports: Vec<PortMapping>,
    mounts: Vec<BindMount>,
}

/// The mathematical view of a [`ContainerSpec`].
pub struct ContainerSpecView {
    pub image: Seq<char>,
    pub tag: Seq<char>,
    pub env: Map<Seq<char>, Seq<char>>,
    pub cmd: Seq<Seq<char>>,
    pub network: Option<Seq<char>>,
    pub container_name: Option<Seq<char>>,
    pub ports: Seq<PortMapping>,
    pub mounts: Seq<(Seq<char>, Seq<char>)>,
}

/// The view of an optional text.
pub open spec fn opt_view(o: Option<String>) -> Option<Seq<char>> {
    match o {
        Some(s) => Some(s@),
        None => None,
    }
}

impl View for ContainerSpec {
    type V = ContainerSpecView;

    closed spec fn view(&self) -> ContainerSpecView {
        ContainerSpecView {
            image: self.image@,
            tag: self.tag@,
            env: env_of(entries_view(self.env@)),
            cmd: self.cmd@.map_values(|s: String| s@),
            network: opt_view(self.network),
            container_name: opt_view(self.container_name),
            ports: self.ports@,
            mounts: self.mounts@.map_values(|m: BindMount| mount_view(m)),
        }
    }
}

/// Setting a name that occurs once in a list of distinct names in place
/// gives the environment with that name set.
proof fn lemma_env_update(entries: Seq<(Seq<char>, Seq<char>)>, k: int, value: Seq<char>)
    requires
        names_distinct(entries),
        0 <= k < entries.len(),
    ensures
        env_of(entries.update(k, (entries[k].0, value))) == env_of(entries).insert(entries[k].0, value),
    decreases entries.len(),
{
    let name = entries[k].0;
    let updated = entries.update(k, (name, value));
    if k == entries.len() - 1 {
        assert(updated.drop_last() =~= entries.drop_last());
        assert(env_of(entries).insert(name, value) =~= env_of(entries.drop_last()).insert(name, value));
    } else {
        assert(updated.drop_last() =~= entries.drop_last().update(k, (name, value)));
        assert(names_distinct(entries.drop_last()));
        lemma_env_update(entries.drop_last(), k, value);
        let last = entries.last();
        assert(last.0 != name) by {
            assert(entries[k].0 != entries[entries.len() - 1].0);
        }
        assert(updated.last() == last);
        assert(env_of(updated) =~= env_of(entries).insert(name, value));
    }
}

/// Sets `name` to `value` in a list of settings with distinct names:
/// in place where the name is listed, else at the end.
fn set_env(env: &mut Vec<(String, String)>, name: String, value: String)
    requires
        names_distinct(entries_view(old(env)@)),
    ensures
        names_distinct(entries_view(final(env)@)),
        env_of(entries_view(final(env)@)) == env_of(entries_view(old(env)@)).insert(name@, value@),
{
    let ghost old_entries = entries_view(env@);
    let n = env.len();
    let mut k: usize = 0;
    while k < n
        invariant
            k <= n,
            n == env@.len(),
            old_entries == entries_view(env@),
            old_entries == entries_view(old(env)@),
            names_distinct(old_entries),
            forall|j: int| 0 <= j < k ==> old_entries[j].0 != name@,
        decreases n - k,
    {
        if env[k].0 == name {
            proof {
                assert(old_entries[k as int].0 == name@);
                lemma_env_update(old_entries, k as int, value@);
            }
            env.set(k, (name, value));
            proof {
                let ev = entries_view(env@);
                assert(ev =~= old_entries.update(k as int, (old_entries[k as int].0, value@)));
                assert(env_of(ev) == env_of(old_entries).insert(name@, value@));
                assert forall|i: int, j: int| 0 <= i < j < ev.len() implies #[trigger] ev[i].0
                    != #[trigger] ev[j].0 by {
                    assert(ev[i].0 == old_entries[i].0 && ev[j].0 == old_entries[j].0);
                }
            }
            return;
        }
        k = k + 1;
    }
    env.push((name, value));
    proof {
        let ev = entries_view(env@);
        assert(ev.drop_last() =~= old_entries);
        assert forall|i: int, j: int| 0 <= i < j < ev.len() implies #[trigger] ev[i].0 != #[trigger] ev[j].0 by {
            if j == ev.len() - 1 {
                assert(ev[i] == old_entries[i]);
            } else {
                assert(ev[i] == old_entries[i] && ev[j] == old_entries[j]);
            }
        }
    }
}

impl ContainerSpec {
    /// The spec's invariant: no environment variable is listed twice.
    #[verifier::type_invariant]
    spec fn env_names_distinct(self) -> bool {
        names_distinct(entries_view(self.env@))
    }

    /// A request for image `image` at tag `tag`, with nothing else set.
    pub fn new(image: &str, tag: &str) -> (r: ContainerSpec)
        ensures
            r@ == (ContainerSpecView {
                image: image@,
                tag: tag@,
                env: Map::empty(),
                cmd: Seq::empty(),
                network: None,
                container_name: None,
                ports: Seq::empty(),
                mounts: Seq::empty(),
            }),
    {
        let r = ContainerSpec {
            image: image.to_owned(),
            tag: tag.to_owned(),
            env: Vec::new(),
            cmd: Vec::new(),
            network: None,
            container_name: None,
            ports: Vec::new(),
            mounts: Vec::new(),
        };
        proof {
            assert(entries_view(r.env@) =~= Seq::empty());
            assert(r@.cmd =~= Seq::empty());
            assert(r@.mounts =~= Seq::empty());
        }
        r
    }

    /// The image's name.
    pub fn image(&self) -> (r: &str)
        ensures
            r@ == self@.image,
    {
        self.image.as_str()
    }

    /// The image's tag.
    pub fn tag(&self) -> (r: &str)
        ensures
            r@ == self@.tag,
    {
        self.tag.as_str()
    }

    /// The environment, one setting per name, in the order in which the
    /// names were first set.
    pub fn env_vars(&self) -> (r: &Vec<(String, String)>)
        ensures
            env_of(entries_view(r@)) == self@.env,
            names_distinct(entries_view(r@)),
    {
        proof {
            use_type_invariant(self);
        }
        &self.env
    }

    /// The command that overrides the image's, empty if none does.
    pub fn cmd(&self) -> (r: &Vec<String>)
        ensures
            r@.map_values(|s: String| s@) == self@.cmd,
    {
        &self.cmd
    }

    /// The network to connect the container to, if any.
    pub fn network(&self) -> (r: &Option<String>)
        ensures
            opt_view(*r) == self@.network,
    {
        &self.network
    }

    /// The container's name, if one is set.
    pub fn container_name(&self) -> (r: &Option<String>)
        ensures
            opt_view(*r) == self@.container_name,
    {
        &self.container_name
    }

    /// The published ports, in order.
    pub fn ports(&self) -> (r: &Vec<PortMapping>)
        ensures
            r@ == self@.ports,
    {
        &self.ports
    }

    /// The bind mounts, in order.
    pub fn mounts(&self) -> (r: &Vec<BindMount>)
        ensures
            r@.map_values(|m: BindMount| mount_view(m)) == self@.mounts,
    {
        &self.mounts
    }

    /// Sets environment variable `name` to `value`, replacing an earlier
    /// value of the same name.
    pub fn with_env_var(self, name: String, value: String) -> (r: ContainerSpec)
        ensures
            r@ == (ContainerSpecView { env: self@.env.insert(name@, value@), ..self@ }),
    {
        proof {
            use_type_invariant(&self);
        }
        let ContainerSpec { image, tag, mut env, cmd, network, container_name, ports, mounts } = self;
        set_env(&mut env, name, value);
        ContainerSpec { image, tag, env, cmd, network, container_name, ports, mounts }
    }

    /// Overrides the command that the container runs.
    pub fn with_cmd(self, cmd: Vec<String>) -> (r: ContainerSpec)
        ensures
            r@ == (ContainerSpecView { cmd: cmd@.map_values(|s: String| s@), ..self@ }),
    {
        proof {
            use_type_invariant(&self);
        }
        ContainerSpec { cmd, ..self }
    }

    /// Connects the container to network `network`.
    pub fn with_network(self, network: String) -> (r: ContainerSpec)
        ensures
            r@ == (ContainerSpecView { network: Some(network@), ..self@ }),
    {
        proof {
            use_type_invariant(&self);
        }
        ContainerSpec { network: Some(network), ..self }
    }

    /// Names the container `name`.
    pub fn with_container_name(self, name: String) -> (r: ContainerSpec)
        ensures
            r@ == (ContainerSpecView { container_name: Some(name@), ..self@ }),
    {
        proof {
            use_type_invariant(&self);
        }
        ContainerSpec { container_name: Some(name), ..self }
    }

    /// Publishes the container's TCP port `container_port` on host port
    /// `host_port`, after the ports published so far.
    pub fn with_mapped_port(self, host_port: u16, container_port: u16) -> (r: ContainerSpec)
        ensures
            r@ == (ContainerSpecView {
                ports: self@.ports.push(PortMapping { host_port, container_port }),
                ..self@
            }),
    {
        proof {
            use_type_invariant(&self);
        }
        let ContainerSpec { image, tag, env, cmd, network, container_name, mut ports, mounts } = self;
        ports.push(PortMapping { host_port, container_port });
        ContainerSpec { image, tag, env, cmd, network, container_name, ports, mounts }
    }

    /// Binds host path `host_path` at `container_path`, after the mounts
    /// made so far.
    pub fn with_bind_mount(self, host_path: String, container_path: String) -> (r: ContainerSpec)
        ensures
            r@ == (ContainerSpecView {
                mounts: self@.mounts.push((host_path@, container_path@)),
                ..self@
            }),
    {
        proof {
            use_type_invariant(&self);
        }
        let ContainerSpec { image, tag, env, cmd, network, container_name, ports, mut mounts } = self;
        let ghost old_mounts = mounts@;
        mounts.push(BindMount { host_path, container_path });
        proof {
            assert(mounts@.map_values(|m: BindMount| mount_view(m)) =~= old_mounts.map_values(
                |m: BindMount| mount_view(m),
            ).push((host_path@, container_path@)));
        }
        ContainerSpec { image, tag, env, cmd, network, container_name, ports, mounts }
    }
}

} // verus!

//! Pods: finding the configuration of the Kubernetes client, and reading the
//! containers of a pod from its status.
use vstd::prelude::*;
use crate::container::{
    decimal_text, index_string, CmdOutput, Container, ContainerError, ContainerRuntime,
};
use crate::error::K8sError;
use crate::iplink::opt_view;

verus! {

/// The error of `url::Url::parse`, carried through and never looked into.
#[verifier::external_type_specification]
#[verifier::external_body]
pub struct ExUrlParseError(url::ParseError);

/// The scheme and the host of a URL, or `None` when it is not a URL.
pub uninterp spec fn url_parts(s: Seq<char>) -> Option<(Seq<char>, Option<Seq<char>>)>;

/// Relies on `url::Url::parse`, `Url::scheme` and `Url::host_str`: the result
/// depends on the text alone.
#[verifier::external_body]
fn parse_url(s: &str) -> (r: Result<(String, Option<String>), url::ParseError>)
    ensures
        match r {
            Ok(p) => url_parts(s@) == Some((p.0@, opt_view(p.1))),
            Err(_) => url_parts(s@) is None,
        },
{
    match url::Url::parse(s) {
        Ok(u) => Ok((u.scheme().to_string(), u.host_str().map(|h| h.to_string()))),
        Err(e) => Err(e),
    }
}

/// A pod, by name and Kubernetes namespace.
#[derive(Debug, PartialEq, Eq)]
pub struct Pod {
    pub name: String,
    pub namespace: String,
}

impl Pod {
    /// The pod `name` in `namespace`, or in the `default` namespace.
    pub fn new(name: &str, namespace: Option<&str>) -> (r: Pod)
        ensures
            r.name@ == name@,
            r.namespace@ == match namespace {
                Some(ns) => ns@,
                None => "default"@,
            },
    {
        let namespace = match namespace {
            Some(ns) => ns.to_owned(),
            None => String::from_str("default"),
        };
        Pod { name: name.to_owned(), namespace }
    }

    /// The containers of this pod, read from `info`, its description as the
    /// Kubernetes API gave it; each container's process is found through `exec`.
    /// A container whose process cannot be found keeps its error in its place,
    /// so that the others are still reported.
    pub fn containers<F: Fn(String, Vec<String>) -> Result<CmdOutput, String>>(
        &self,
        info: PodInfo,
        exec: &F,
    ) -> (r: Result<Vec<Result<Container, ContainerError>>, K8sError>)
        requires
            forall|p: String, a: Vec<String>| exec.requires((p, a)),
        ensures
            r matches Ok(v) ==> (info.status matches Some(s) && s.container_ids matches Some(ids)
                && v.len() == ids.len() && forall|i: int|
                0 <= i < v.len() ==> ((#[trigger] v@[i]) matches Ok(c) ==> (ids@[i] matches Some(
                    raw,
                ) && runtime_and_id_of(url_parts(raw@)) == Ok::<Seq<char>, Option<Seq<char>>>(
                    c.id@,
                ) && opt_view(c.node_name) == opt_view(info.node_name)))),
            info.status is None ==> (r matches Err(K8sError::MissingOrNullField(f)) && f@
                == status_field()),
            info.status matches Some(s) ==> (s.container_ids is None ==> (r matches Err(
                K8sError::MissingOrNullField(f),
            ) && f@ == statuses_field())),
            info.status matches Some(s) ==> (s.container_ids matches Some(ids) ==> (r is Ok
                <==> forall|i: int| 0 <= i < ids.len() ==> id_ok(#[trigger] ids@[i]))),
            info.status matches Some(s) ==> (s.container_ids matches Some(ids) ==> (r matches Err(
                e,
            ) ==> first_status_error(ids@, e))),
    {
        let node_name = info.node_name;
        let found = match extract_container_info(info.status) {
            Ok(v) => v,
            Err(e) => return Err(e),
        };
        let ghost all = found@;
        let mut res: Vec<Result<Container, ContainerError>> = Vec::new();
        let ghost mut k: int = 0;
        for item in it: found.into_iter()
            invariant
                it.seq() == all,
                k == it.index(),
                res.len() == k,
                node_name == info.node_name,
                forall|q: int|
                    0 <= q < k ==> ((#[trigger] res@[q]) matches Ok(c) ==> (c.id == all[q].1
                        && opt_view(c.node_name) == opt_view(node_name))),
                forall|p: String, a: Vec<String>| exec.requires((p, a)),
        {
            let (runtime, id) = item;
            let one = match Container::new(id, runtime, exec) {
                Ok(mut c) => {
                    c.node_name = clone_opt(&node_name);
                    Ok(c)
                },
                Err(e) => Err(e),
            };
            res.push(one);
            proof {
                k = k + 1;
            }
        }
        Ok(res)
    }
}

fn clone_opt(o: &Option<String>) -> (r: Option<String>)
    ensures
        opt_view(r) == opt_view(*o),
{
    match o {
        Some(s) => Some(s.clone()),
        None => None,
    }
}

/// The part of a pod's description that is read here.
#[derive(Debug, PartialEq, Eq)]
pub struct PodInfo {
    pub node_name: Option<String>,
    pub status: Option<PodStatusInfo>,
}

/// The container statuses of a pod, each with its `containerID` when set.
#[derive(Debug, PartialEq, Eq)]
pub struct PodStatusInfo {
    pub container_ids: Option<Vec<Option<String>>>,
}

pub open spec fn docker_scheme() -> Seq<char> {
    seq!['d', 'o', 'c', 'k', 'e', 'r']
}

/// The runtime and id that a container id URL such as `docker://c667..` names,
/// from its parts: `Err(Some(scheme))` for a runtime other than docker,
/// `Err(None)` for text that is no URL or has no host.
pub open spec fn runtime_and_id_of(parts: Option<(Seq<char>, Option<Seq<char>>)>) -> Result<
    Seq<char>,
    Option<Seq<char>>,
> {
    match parts {
        None => Err(None),
        Some(p) => if p.0 != docker_scheme() {
            Err(Some(p.0))
        } else {
            match p.1 {
                Some(h) => Ok(h),
                None => Err(None),
            }
        },
    }
}

fn docker_vec() -> (r: Vec<char>)
    ensures
        r@ == docker_scheme(),
{
    vec!['d', 'o', 'c', 'k', 'e', 'r']
}

/// Reads the runtime and id of a container from the parts of its id URL, as
/// `url` gave them; `field` and `raw` name the field and its text for errors.
pub fn runtime_and_id(
    parts: Option<(String, Option<String>)>,
    field: String,
    raw: &str,
) -> (r: Result<(ContainerRuntime, String), K8sError>)
    ensures
        match runtime_and_id_of(
            match parts {
                Some(p) => Some((p.0@, opt_view(p.1))),
                None => None,
            },
        ) {
            Ok(id) => r matches Ok(v) && v.0 == ContainerRuntime::Docker && v.1@ == id,
            Err(Some(scheme)) => r matches Err(K8sError::UnsupportedContainerRuntime(s)) && s@
                == scheme,
            Err(None) => r matches Err(K8sError::UnsupportedFieldFormat { field: f, val }) && f
                == field && val@ == raw@,
        },
{
    match parts {
        None => Err(K8sError::UnsupportedFieldFormat { field, val: raw.to_owned() }),
        Some((scheme, host)) => {
            let cs = crate::iplink::collect_chars(scheme.as_str());
            assert(cs@.subrange(0, cs@.len() as int) =~= cs@);
            if !crate::text::span_is(&cs, 0, cs.len(), &docker_vec()) {
                return Err(K8sError::UnsupportedContainerRuntime(scheme));
            }
            match host {
                Some(h) => Ok((ContainerRuntime::Docker, h)),
                None => Err(K8sError::UnsupportedFieldFormat { field, val: raw.to_owned() }),
            }
        },
    }
}

/// Reads the runtime and id of a container from its id URL.
pub fn container_id_from_url(raw: &str, field: String) -> (r: Result<
    (ContainerRuntime, String),
    K8sError,
>)
    ensures
        match runtime_and_id_of(url_parts(raw@)) {
            Ok(id) => r matches Ok(v) && v.0 == ContainerRuntime::Docker && v.1@ == id,
            Err(Some(scheme)) => r matches Err(K8sError::UnsupportedContainerRuntime(s)) && s@
                == scheme,
            Err(None) => r matches Err(K8sError::UnsupportedFieldFormat { field: f, val }) && f
                == field && val@ == raw@,
        },
{
    let parts = match parse_url(raw) {
        Ok(p) => Some(p),
        Err(_) => None,
    };
    runtime_and_id(parts, field, raw)
}

pub open spec fn status_field() -> Seq<char> {
    "pod.status"@
}

pub open spec fn statuses_field() -> Seq<char> {
    "pod.status.container_statuses"@
}

/// The path of the `containerID` field of container `i`.
pub open spec fn container_id_field(i: int) -> Seq<char> {
    "pod.status.container_statuses."@ + decimal_text(i) + ".containerID"@
}

fn container_id_field_name(i: usize) -> (r: String)
    ensures
        r@ == container_id_field(i as int),
{
    let mut f = String::from_str("pod.status.container_statuses.");
    let n = index_string(i);
    f.append(n.as_str());
    f.append(".containerID");
    f
}

/// Whether a status's `containerID` names a docker container.
pub open spec fn id_ok(o: Option<String>) -> bool {
    o matches Some(raw) && runtime_and_id_of(url_parts(raw@)) is Ok
}

/// `e` is the error for the `containerID` of status `i`, when it is missing,
/// names another runtime, or is no URL with a host.
pub open spec fn status_error(o: Option<String>, i: int, e: K8sError) -> bool {
    match o {
        None => e matches K8sError::MissingOrNullField(f) && f@ == container_id_field(i),
        Some(raw) => match runtime_and_id_of(url_parts(raw@)) {
            Ok(_) => false,
            Err(Some(scheme)) => e matches K8sError::UnsupportedContainerRuntime(sc) && sc@ == scheme,
            Err(None) => e matches K8sError::UnsupportedFieldFormat { field: f, val } && f@
                == container_id_field(i) && val@ == raw@,
        },
    }
}

/// `e` is the error of the first status whose `containerID` is not usable.
pub open spec fn first_status_error(ids: Seq<Option<String>>, e: K8sError) -> bool {
    exists|i: int|
        0 <= i < ids.len() && (forall|j: int| 0 <= j < i ==> id_ok(#[trigger] ids[j]))
            && status_error(ids[i], i, e)
}

/// Reads the runtime and id of each container of a pod's status, in order.
pub fn extract_container_info(status: Option<PodStatusInfo>) -> (r: Result<
    Vec<(ContainerRuntime, String)>,
    K8sError,
>)
    ensures
        status is None ==> (r matches Err(K8sError::MissingOrNullField(f)) && f@ == status_field()),
        status matches Some(s) ==> (s.container_ids is None ==> (r matches Err(
            K8sError::MissingOrNullField(f),
        ) && f@ == statuses_field())),
        status matches Some(s) ==> (s.container_ids matches Some(ids) ==> (r matches Ok(v) ==> (
        v.len() == ids.len() && forall|i: int|
            0 <= i < v.len() ==> (v@[i].0 == ContainerRuntime::Docker && ((#[trigger] ids@[i]) matches Some(raw)
                && runtime_and_id_of(url_parts(raw@)) == Ok::<Seq<char>, Option<Seq<char>>>(
                v@[i].1@,
            )))))),
        status matches Some(s) ==> (s.container_ids matches Some(ids) ==> (r is Ok <==> forall|
            i: int,
        |
            0 <= i < ids.len() ==> id_ok(#[trigger] ids@[i]))),
        status matches Some(s) ==> (s.container_ids matches Some(ids) ==> (r matches Err(e)
            ==> first_status_error(ids@, e))),
{
    let s = match status {
        None => return Err(K8sError::MissingOrNullField(String::from_str("pod.status"))),
        Some(s) => s,
    };
    let ids = match s.container_ids {
        None => return Err(
            K8sError::MissingOrNullField(String::from_str("pod.status.container_statuses")),
        ),
        Some(ids) => ids,
    };
    let ghost all = ids@;
    let mut res: Vec<(ContainerRuntime, String)> = Vec::new();
    let mut i: usize = 0;
    while i < ids.len()
        invariant
            ids@ == all,
            status matches Some(s0) && s0.container_ids == Some(ids),
            i <= ids.len(),
            res.len() == i,
            forall|k: int|
                0 <= k < i ==> (res@[k].0 == ContainerRuntime::Docker && ((#[trigger] all[k]) matches Some(raw)
                    && runtime_and_id_of(url_parts(raw@)) == Ok::<Seq<char>, Option<Seq<char>>>(
                    res@[k].1@,
                ))),
        decreases ids.len() - i,
    {
        let field = container_id_field_name(i);
        proof {
            assert forall|j: int| 0 <= j < i implies id_ok(#[trigger] all[j]) by {
                assert(all[j] matches Some(raw) && runtime_and_id_of(url_parts(raw@)) is Ok);
            }
        }
        match &ids[i] {
            None => {
                let e = K8sError::MissingOrNullField(field);
                assert(status_error(all[i as int], i as int, e));
                assert(!id_ok(all[i as int]));
                return Err(e);
            },
            Some(raw) => {
                match container_id_from_url(raw.as_str(), field) {
                    Ok(v) => res.push(v),
                    Err(e) => {
                        assert(status_error(all[i as int], i as int, e));
                        assert(!id_ok(all[i as int]));
                        return Err(e);
                    },
                }
            },
        }
        i = i + 1;
    }
    assert forall|j: int| 0 <= j < all.len() implies id_ok(#[trigger] all[j]) by {
        assert(all[j] matches Some(raw) && runtime_and_id_of(url_parts(raw@)) is Ok);
    }
    Ok(res)
}

/// The host part of a container id URL, from its parts as `url` gave them;
/// any runtime is accepted. `field` and `raw` name the field and its text for errors.
pub fn host_of_parts(parts: Option<(String, Option<String>)>, field: String, raw: &str) -> (r: Result<
    String,
    K8sError,
>)
    ensures
        match parts {
            Some((_, Some(h))) => r == Ok::<String, K8sError>(h),
            _ => r matches Err(K8sError::UnsupportedFieldFormat { field: f, val }) && f == field
                && val@ == raw@,
        },
{
    match parts {
        Some((_, Some(h))) => Ok(h),
        _ => Err(K8sError::UnsupportedFieldFormat { field, val: raw.to_owned() }),
    }
}

/// The id of the first container of a pod: the host part of its id URL,
/// such as `c667..` in `docker://c667..`.
pub fn get_id_of_first_container_in_pod(info: &PodInfo) -> (r: Result<String, K8sError>)
    ensures
        match info.status {
            None => r matches Err(K8sError::MissingOrNullField(f)) && f@ == status_field(),
            Some(s) => match s.container_ids {
                None => r matches Err(K8sError::MissingOrNullField(f)) && f@ == statuses_field(),
                Some(ids) => if ids.len() == 0 {
                    r matches Err(K8sError::MissingOrNullField(f)) && f@ == statuses_field()
                } else {
                    match ids@[0] {
                        None => r matches Err(K8sError::MissingOrNullField(f)) && f@
                            == container_id_field(0),
                        Some(raw) => match url_parts(raw@) {
                            Some((_, Some(h))) => r matches Ok(v) && v@ == h,
                            _ => r matches Err(K8sError::UnsupportedFieldFormat { field: f, val })
                                && f@ == container_id_field(0) && val@ == raw@,
                        },
                    }
                },
            },
        },
{
    let s = match &info.status {
        None => return Err(K8sError::MissingOrNullField(String::from_str("pod.status"))),
        Some(s) => s,
    };
    let ids = match &s.container_ids {
        None => return Err(
            K8sError::MissingOrNullField(String::from_str("pod.status.container_statuses")),
        ),
        Some(ids) => ids,
    };
    if ids.len() == 0 {
        return Err(K8sError::MissingOrNullField(String::from_str("pod.status.container_statuses")));
    }
    let field = container_id_field_name(0);
    match &ids[0] {
        None => Err(K8sError::MissingOrNullField(field)),
        Some(raw) => {
            let parts = match parse_url(raw.as_str()) {
                Ok(p) => Some(p),
                Err(_) => None,
            };
            host_of_parts(parts, field, raw.as_str())
        },
    }
}

/// The configuration file of the Kubernetes client: the value of `KUBECONFIG`
/// when set, else `$HOME/.kube/config` when it is a file (`home_config`), else
/// `/etc/kubernetes/admin.conf` when it can be opened.
pub fn kubeconfig_path(
    env_value: Option<String>,
    home_config: Option<String>,
    admin_conf_readable: bool,
) -> (r: Result<String, K8sError>)
    ensures
        env_value is Some ==> r == Ok::<String, K8sError>(env_value->0),
        env_value is None && home_config is Some ==> r == Ok::<String, K8sError>(home_config->0),
        env_value is None && home_config is None && admin_conf_readable ==> (r matches Ok(p) && p@
            == "/etc/kubernetes/admin.conf"@),
        env_value is None && home_config is None && !admin_conf_readable ==> r == Err::<
            String,
            K8sError,
        >(K8sError::KubeconfigMissing),
{
    if let Some(v) = env_value {
        return Ok(v);
    }
    if let Some(h) = home_config {
        return Ok(h);
    }
    if admin_conf_readable {
        Ok(String::from_str("/etc/kubernetes/admin.conf"))
    } else {
        Err(K8sError::KubeconfigMissing)
    }
}

} // verus!

use cniguru::{
    container_from_inspect, container_id_from_url, extract_container_info,
    get_id_of_first_container_in_pod, host_cmd_result, kubeconfig_path, parse_docker_pid,
    run_host_cmd, runtime_and_id, split_host_cmd, version, CmdOutput, Container, ContainerError,
    ContainerRuntime, HostCmdError, K8sError, Pod, PodInfo, PodStatusInfo,
};

fn ok_output(stdout: &str) -> CmdOutput {
    CmdOutput { success: true, code: Some(0), stdout: stdout.into(), stderr: String::new() }
}

#[test]
fn command_line_is_split_on_spaces() {
    let (p, a) = split_host_cmd("docker inspect abc --format x").unwrap();
    assert_eq!(p, "docker");
    assert_eq!(a, vec!["inspect", "abc", "--format", "x"]);
    let (p, a) = split_host_cmd("ls").unwrap();
    assert_eq!(p, "ls");
    assert!(a.is_empty());
    assert_eq!(split_host_cmd(" ls"), Err(HostCmdError::CmdInvalid(" ls".into())));
    assert_eq!(split_host_cmd(""), Err(HostCmdError::CmdInvalid("".into())));
}

#[test]
fn successful_command_gives_its_trimmed_output() {
    assert_eq!(host_cmd_result("x", ok_output("  1234\n")), Ok("1234".into()));
}

#[test]
fn failed_command_gives_code_and_error_output() {
    let out = CmdOutput { success: false, code: Some(-2), stdout: String::new(), stderr: " no such container\n".into() };
    assert_eq!(
        host_cmd_result("docker inspect x", out),
        Err(HostCmdError::CmdFailed {
            cmd: "docker inspect x".into(),
            code: "-2".into(),
            stderr: "no such container".into(),
        })
    );
    let out = CmdOutput { success: false, code: None, stdout: String::new(), stderr: String::new() };
    assert_eq!(
        host_cmd_result("c", out),
        Err(HostCmdError::CmdFailed { cmd: "c".into(), code: "N/A".into(), stderr: String::new() })
    );
}

#[test]
fn run_host_cmd_hands_program_and_arguments_to_the_runner() {
    let exec = |p: String, a: Vec<String>| -> Result<CmdOutput, String> {
        assert_eq!(p, "echo");
        assert_eq!(a, vec!["hi"]);
        Ok(ok_output("hi\n"))
    };
    assert_eq!(run_host_cmd("echo hi", &exec), Ok("hi".into()));
    let fail = |_p: String, _a: Vec<String>| -> Result<CmdOutput, String> { Err("not found".into()) };
    assert_eq!(
        run_host_cmd("nope", &fail),
        Err(HostCmdError::CmdNotRun { cmd: "nope".into(), reason: "not found".into() })
    );
}

#[test]
fn docker_pid_is_read_between_quotes() {
    assert_eq!(parse_docker_pid("'1234'"), Some(1234));
    assert_eq!(parse_docker_pid("1234"), Some(1234));
    assert_eq!(parse_docker_pid("'abc'"), None);
    assert_eq!(parse_docker_pid("''"), None);
    assert_eq!(parse_docker_pid("'2147483648'"), None);
}

#[test]
fn container_is_resolved_through_docker_inspect() {
    let exec = |p: String, a: Vec<String>| -> Result<CmdOutput, String> {
        assert_eq!(p, "docker");
        assert_eq!(a, vec!["inspect", "c6671e79", "--format", "'{{.State.Pid}}'"]);
        Ok(ok_output("'4242'\n"))
    };
    let c = Container::new("c6671e79".into(), ContainerRuntime::Docker, &exec).unwrap();
    assert_eq!(c.pid, 4242);
    assert_eq!(c.id, "c6671e79");
    assert_eq!(c.node_name, None);
    assert_eq!(
        container_from_inspect("x".into(), ContainerRuntime::Docker, "oops".into()),
        Err(ContainerError::InvalidPid("oops".into()))
    );
}

#[test]
fn version_line() {
    assert_eq!(version("0.3.0", "2019-01-02"), "cniguru 0.3.0 (2019-01-02)");
}

#[test]
fn pod_namespace_defaults() {
    assert_eq!(Pod::new("web", None), Pod { name: "web".into(), namespace: "default".into() });
    assert_eq!(Pod::new("web", Some("kube-system")).namespace, "kube-system");
}

#[test]
fn container_id_url_is_read() {
    assert_eq!(
        container_id_from_url("docker://c6671e7930e7181d7e", "f".into()),
        Ok((ContainerRuntime::Docker, "c6671e7930e7181d7e".into()))
    );
    assert_eq!(
        container_id_from_url("containerd://abc", "f".into()),
        Err(K8sError::UnsupportedContainerRuntime("containerd".into()))
    );
    assert_eq!(
        container_id_from_url("not a url", "f".into()),
        Err(K8sError::UnsupportedFieldFormat { field: "f".into(), val: "not a url".into() })
    );
    assert_eq!(
        runtime_and_id(Some(("docker".into(), None)), "f".into(), "docker:x"),
        Err(K8sError::UnsupportedFieldFormat { field: "f".into(), val: "docker:x".into() })
    );
}

fn pod(ids: Option<Vec<Option<String>>>) -> PodInfo {
    PodInfo { node_name: Some("node-1".into()), status: Some(PodStatusInfo { container_ids: ids }) }
}

#[test]
fn pod_status_gives_its_containers() {
    let v = extract_container_info(pod(Some(vec![Some("docker://aaa".into()), Some("docker://bbb".into())])).status)
        .unwrap();
    assert_eq!(v, vec![(ContainerRuntime::Docker, "aaa".into()), (ContainerRuntime::Docker, "bbb".into())]);
    assert_eq!(
        extract_container_info(None),
        Err(K8sError::MissingOrNullField("pod.status".into()))
    );
    assert_eq!(
        extract_container_info(pod(None).status),
        Err(K8sError::MissingOrNullField("pod.status.container_statuses".into()))
    );
    assert_eq!(
        extract_container_info(pod(Some(vec![Some("docker://aaa".into()), None])).status),
        Err(K8sError::MissingOrNullField("pod.status.container_statuses.1.containerID".into()))
    );
}

#[test]
fn first_container_of_pod() {
    assert_eq!(
        get_id_of_first_container_in_pod(&pod(Some(vec![Some("docker://aaa".into())]))),
        Ok("aaa".into())
    );
    assert!(get_id_of_first_container_in_pod(&pod(Some(vec![]))).is_err());
}

#[test]
fn pod_containers_carry_the_node_name() {
    let exec = |_p: String, _a: Vec<String>| -> Result<CmdOutput, String> { Ok(ok_output("'7'")) };
    let p = Pod::new("web", None);
    let cs = p.containers(pod(Some(vec![Some("docker://aaa".into())])), &exec).unwrap();
    assert_eq!(cs.len(), 1);
    let c = cs[0].as_ref().unwrap();
    assert_eq!(c.node_name.as_deref(), Some("node-1"));
    assert_eq!(c.pid, 7);
    assert_eq!(c.id, "aaa");
}

#[test]
fn one_failing_container_does_not_hide_the_others() {
    let exec = |_p: String, a: Vec<String>| -> Result<CmdOutput, String> {
        if a[1] == "bad" {
            Ok(CmdOutput { success: false, code: Some(1), stdout: String::new(), stderr: "gone".into() })
        } else {
            Ok(ok_output("'9'"))
        }
    };
    let p = Pod::new("web", None);
    let cs = p
        .containers(pod(Some(vec![Some("docker://bad".into()), Some("docker://good".into())])), &exec)
        .unwrap();
    assert_eq!(cs.len(), 2);
    assert!(matches!(cs[0], Err(ContainerError::HostCmd(HostCmdError::CmdFailed { .. }))));
    assert_eq!(cs[1].as_ref().unwrap().pid, 9);
    assert_eq!(p.containers(PodInfo { node_name: None, status: None }, &exec), Err(K8sError::MissingOrNullField("pod.status".into())));
}

#[test]
fn first_container_accepts_any_runtime() {
    assert_eq!(
        get_id_of_first_container_in_pod(&pod(Some(vec![Some("containerd://abc".into())]))),
        Ok("abc".into())
    );
    assert_eq!(
        get_id_of_first_container_in_pod(&pod(Some(vec![Some("not a url".into())]))),
        Err(K8sError::UnsupportedFieldFormat {
            field: "pod.status.container_statuses.0.containerID".into(),
            val: "not a url".into(),
        })
    );
}

#[test]
fn kubeconfig_is_chosen_in_order() {
    assert_eq!(kubeconfig_path(Some("/k".into()), Some("/h".into()), true), Ok("/k".into()));
    assert_eq!(kubeconfig_path(None, Some("/h".into()), true), Ok("/h".into()));
    assert_eq!(kubeconfig_path(None, None, true), Ok("/etc/kubernetes/admin.conf".into()));
    assert_eq!(kubeconfig_path(None, None, false), Err(K8sError::KubeconfigMissing));
}

#[test]
fn failed_inspect_is_the_error_of_the_container() {
    let exec = |_p: String, _a: Vec<String>| -> Result<CmdOutput, String> {
        Ok(CmdOutput { success: false, code: Some(1), stdout: String::new(), stderr: "No such object\n".into() })
    };
    assert_eq!(
        Container::new("x".into(), ContainerRuntime::Docker, &exec),
        Err(ContainerError::HostCmd(HostCmdError::CmdFailed {
            cmd: "docker inspect x --format '{{.State.Pid}}'".into(),
            code: "1".into(),
            stderr: "No such object".into(),
        }))
    );
}

#[test]
fn first_bad_status_names_the_error() {
    assert_eq!(
        extract_container_info(pod(Some(vec![Some("docker://a".into()), Some("rkt://b".into()), None])).status),
        Err(K8sError::UnsupportedContainerRuntime("rkt".into()))
    );
    assert_eq!(
        extract_container_info(pod(Some(vec![Some("docker:b".into())])).status),
        Err(K8sError::UnsupportedFieldFormat {
            field: "pod.status.container_statuses.0.containerID".into(),
            val: "docker:b".into(),
        })
    );
    assert_eq!(
        host_cmd_result("c", CmdOutput { success: false, code: Some(-2147483648), stdout: String::new(), stderr: String::new() }),
        Err(HostCmdError::CmdFailed { cmd: "c".into(), code: "-2147483648".into(), stderr: String::new() })
    );
}

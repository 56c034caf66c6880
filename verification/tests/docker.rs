use knocks::language::Language;
use knocks::runner::LOCAL_IMAGE;
use knocks::docker::{
    check_docker, check_image, container_script, docker_arguments, plan_batch, CaseKind, DockerRun,
    RunCase,
};

fn cases(n: usize) -> Vec<RunCase> {
    (1..=n)
        .flat_map(|i| {
            [CaseKind::Answer, CaseKind::Starter].into_iter().map(move |k| RunCase {
                problem_id: format!("b{i:03}"),
                kind: k,
                code: "// code".into(),
            })
        })
        .collect()
}

#[test]
fn a_whole_batch_needs_exactly_one_container() {
    for lang in Language::ALL {
        let plan = plan_batch(lang, &cases(20), "/tmp/w");
        assert_eq!(plan.len(), 1, "{} が {} 回コンテナを起こしている", lang.slug(), plan.len());
    }
}

#[test]
fn container_count_does_not_grow_with_problem_count() {
    let small = plan_batch(Language::Cpp, &cases(1), "/tmp/w").len();
    let large = plan_batch(Language::Cpp, &cases(100), "/tmp/w").len();
    assert_eq!(small, large);
}

#[test]
fn rust_is_verified_in_the_same_image_as_everything_else() {
    let plan = plan_batch(Language::Rust, &cases(20), "/tmp/w");
    assert_eq!(plan.len(), 1, "Rust が Docker で検証されていない");
    assert_eq!(plan[0].image, LOCAL_IMAGE);
}

#[test]
fn empty_batch_plans_no_container() {
    assert!(plan_batch(Language::Cpp, &[], "/tmp/w").is_empty());
}

#[test]
fn every_language_uses_the_one_unified_image() {
    for lang in Language::ALL {
        let plan = plan_batch(lang, &cases(3), "/tmp/w");
        assert_eq!(plan[0].image, LOCAL_IMAGE, "{} が別イメージを使っている", lang.slug());
    }
}

#[test]
fn plan_is_network_isolated() {
    let plan = plan_batch(Language::Python, &cases(3), "/tmp/w");
    assert!(plan[0].network_disabled, "コンテナにネットワークが残っている");
}

#[test]
fn every_case_gets_a_per_case_timeout() {
    for lang in Language::ALL {
        let script = container_script(lang, &cases(2));
        assert!(script.contains("timeout "), "{} のスクリプトに timeout が無い", lang.slug());
    }
}

#[test]
fn script_visits_every_case_directory() {
    let script = container_script(Language::Cpp, &cases(2));
    for id in ["b001", "b002"] {
        for suffix in ["answer", "starter"] {
            assert!(script.contains(&format!("{id}-{suffix}")), "{id}-{suffix} が抜けている:\n{script}");
        }
    }
}

#[test]
fn script_records_exit_code_and_streams_separately() {
    let script = container_script(Language::Python, &cases(1));
    assert!(script.contains("_stdout"));
    assert!(script.contains("_stderr"));
    assert!(script.contains("_exit"));
}

#[test]
fn script_commands_come_from_the_shared_run_plan() {
    for lang in Language::ALL {
        let plan = knocks::runner::run_plan(lang);
        let script = container_script(lang, &cases(1));
        assert!(
            script.contains(&plan.run),
            "{}: run ({}) がスクリプトに入っていない",
            lang.slug(),
            plan.run
        );
        if let Some(compile) = plan.compile {
            assert!(script.contains(&compile), "{}: compile が違う", lang.slug());
        }
    }
}

#[test]
fn csharp_and_rust_copy_the_baked_template_per_case() {
    for lang in [Language::Csharp, Language::Rust] {
        let script = container_script(lang, &cases(2));
        assert!(
            script.contains(knocks::runner::TEMPLATE_ROOT),
            "{}: ひな形を使っていない",
            lang.slug()
        );
    }
    assert!(!container_script(Language::Csharp, &cases(20)).contains("dotnet new"));
}

#[test]
fn scripts_use_the_language_source_file_name() {
    for lang in Language::ALL.into_iter().filter(|l| *l != Language::Csharp) {
        let script = container_script(lang, &cases(1));
        assert!(
            script.contains(lang.source_file_name()),
            "{} のスクリプトが {} を使っていない",
            lang.slug(),
            lang.source_file_name()
        );
    }
}

#[test]
fn a_batch_script_is_what_it_is_down_to_the_letter() {
    let case = RunCase { problem_id: "b001".into(), kind: CaseKind::Starter, code: String::new() };
    assert_eq!(case.dir_name(), "b001-starter");
    assert_eq!(
        container_script(Language::Cpp, &[case]),
        "#!/bin/sh\n# 自動生成 (verifier)\nexport HOME=${HOME:-/tmp}\nexport DOTNET_CLI_TELEMETRY_OPTOUT=1\nexport DOTNET_NOLOGO=1\nexport DOTNET_CLI_HOME=/tmp\ncd /w/cases/b001-starter 2>/dev/null && { timeout 20 sh -c 'g++ -std=c++17 -w -o _prog prog.cc && ./_prog' >_stdout 2>_stderr; echo $? >_exit; }\nexit 0\n"
    );
    assert_eq!(
        container_script(Language::Python, &[]),
        "#!/bin/sh\n# 自動生成 (verifier)\nexport HOME=${HOME:-/tmp}\nexport DOTNET_CLI_TELEMETRY_OPTOUT=1\nexport DOTNET_NOLOGO=1\nexport DOTNET_CLI_HOME=/tmp\nexit 0\n"
    );
}

#[test]
fn the_overall_limit_grows_with_the_cases() {
    assert_eq!(plan_batch(Language::Java, &cases(1), "/tmp/w")[0].overall_timeout_secs, 160);
    assert_eq!(plan_batch(Language::Java, &cases(20), "/tmp/w")[0].overall_timeout_secs, 920);
    assert_eq!(plan_batch(Language::Java, &cases(1), "/tmp/w")[0].workdir, "/tmp/w");
}

#[test]
fn container_arguments_depend_on_the_network() {
    let mut run = DockerRun {
        image: "img:1".into(),
        workdir: "/tmp/work dir".into(),
        script: String::new(),
        network_disabled: true,
        overall_timeout_secs: 1840,
    };
    assert_eq!(
        docker_arguments(&run),
        vec![
            "1840", "docker", "run", "--rm", "--network=none", "-v", "/tmp/work dir:/w", "-w", "/w",
            "img:1", "sh", "/w/run.sh",
        ]
    );
    run.network_disabled = false;
    assert_eq!(
        docker_arguments(&run),
        vec![
            "1840", "docker", "run", "--rm", "-v", "/tmp/work dir:/w", "-w", "/w", "img:1", "sh",
            "/w/run.sh",
        ]
    );
}

#[test]
fn a_missing_tool_is_named() {
    assert_eq!(check_docker(true), Ok(()));
    assert_eq!(
        check_docker(false),
        Err("docker が使えません (デーモンが起動しているか確認してください)".to_string())
    );
    assert_eq!(check_image(true), Ok(()));
    assert_eq!(
        check_image(false),
        Err("実行イメージ knocks-runtime:local がありません。\n  bash scripts/build-runner-image.sh で作ってください (本番と同じ Dockerfile から作られます)".to_string())
    );
}

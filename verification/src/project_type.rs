//! Narrowing the projects of a directory to the one ecosystem the user
//! asked for, and the error when none of that ecosystem is there.
use vstd::prelude::*;
use crate::project::{ProjectInputKind, ProjectInputSpec};
use crate::text::{str_eq, string_of_str};

verus! {

/// Whether a project of `kind` belongs to the requested project type
/// (`npm`, `pypi`, `cargo`, `go`, `ruby`, `php`, `jvm`, `dotnet`); with no
/// request every kind does, and an unknown request selects none.
pub open spec fn spec_kind_selected(kind: ProjectInputKind, project_type: Option<Seq<char>>) -> bool {
    match project_type {
        None => true,
        Some(t) => if t == "npm"@ {
            kind == ProjectInputKind::Npm
        } else if t == "pypi"@ {
            kind.spec_is_python()
        } else if t == "cargo"@ {
            kind == ProjectInputKind::Cargo
        } else if t == "go"@ {
            kind == ProjectInputKind::Go
        } else if t == "ruby"@ {
            kind == ProjectInputKind::Ruby
        } else if t == "php"@ {
            kind == ProjectInputKind::Php
        } else if t == "jvm"@ {
            kind == ProjectInputKind::Gradle || kind == ProjectInputKind::Maven
        } else if t == "dotnet"@ {
            kind == ProjectInputKind::Dotnet
        } else {
            false
        },
    }
}

pub open spec fn opt_str(t: Option<&str>) -> Option<Seq<char>> {
    match t {
        Some(s) => Some(s@),
        None => None,
    }
}

/// Whether a project of `kind` belongs to the requested project type (see
/// `spec_kind_selected`).
pub fn kind_selected(kind: ProjectInputKind, project_type: Option<&str>) -> (b: bool)
    ensures
        b == spec_kind_selected(kind, opt_str(project_type)),
{
    proof {
        reveal_strlit("npm");
        reveal_strlit("pypi");
        reveal_strlit("cargo");
        reveal_strlit("go");
        reveal_strlit("ruby");
        reveal_strlit("php");
        reveal_strlit("jvm");
        reveal_strlit("dotnet");
    }
    match project_type {
        None => true,
        Some(t) => if str_eq(t, "npm") {
            matches!(kind, ProjectInputKind::Npm)
        } else if str_eq(t, "pypi") {
            kind.is_python()
        } else if str_eq(t, "cargo") {
            matches!(kind, ProjectInputKind::Cargo)
        } else if str_eq(t, "go") {
            matches!(kind, ProjectInputKind::Go)
        } else if str_eq(t, "ruby") {
            matches!(kind, ProjectInputKind::Ruby)
        } else if str_eq(t, "php") {
            matches!(kind, ProjectInputKind::Php)
        } else if str_eq(t, "jvm") {
            matches!(kind, ProjectInputKind::Gradle | ProjectInputKind::Maven)
        } else if str_eq(t, "dotnet") {
            matches!(kind, ProjectInputKind::Dotnet)
        } else {
            false
        },
    }
}

/// The projects of `specs` that belong to the requested type, in order.
pub open spec fn selected_specs(specs: Seq<ProjectInputSpec>, project_type: Option<Seq<char>>) -> Seq<ProjectInputSpec>
    decreases specs.len(),
{
    if specs.len() == 0 {
        seq![]
    } else {
        (if spec_kind_selected(specs[0].kind, project_type) {
            seq![specs[0]]
        } else {
            seq![]
        }) + selected_specs(specs.drop_first(), project_type)
    }
}

/// Keeps the projects that belong to the requested type, in their order.
pub fn retain_project_type(specs: Vec<ProjectInputSpec>, project_type: Option<&str>) -> (r: Vec<ProjectInputSpec>)
    ensures
        r@ == selected_specs(specs@, opt_str(project_type)),
{
    let ghost pt = opt_str(project_type);
    let ghost all = specs@;
    let mut rest = specs;
    let mut kept: Vec<ProjectInputSpec> = Vec::new();
    while rest.len() > 0
        invariant
            kept@ + selected_specs(rest@, pt) == selected_specs(all, pt),
            pt == opt_str(project_type),
        decreases rest.len(),
    {
        let ghost before = rest@;
        let spec = rest.remove(0);
        assert(rest@ == before.drop_first());
        let ghost keep_seq = if spec_kind_selected(spec.kind, pt) {
            seq![spec]
        } else {
            seq![]
        };
        assert(selected_specs(before, pt) == keep_seq + selected_specs(rest@, pt));
        if kind_selected(spec.kind, project_type) {
            kept.push(spec);
            assert(kept@ + selected_specs(rest@, pt) =~= (kept@.drop_last() + keep_seq) + selected_specs(rest@, pt));
        } else {
            assert(keep_seq =~= Seq::<ProjectInputSpec>::empty());
        }
    }
    kept
}

/// The error for a requested project type none of whose manifests is
/// present; `None` where there is no request or it names no known type.
pub open spec fn spec_missing_manifest(project_type: Option<Seq<char>>) -> Option<Seq<char>> {
    match project_type {
        None => None,
        Some(t) => if t == "npm"@ {
            Some("Required manifest 'package.json' is missing for this project type."@)
        } else if t == "pypi"@ {
            Some(
                "Required Python manifest is missing for this project type. Expected one of: pyproject.toml, requirements*.txt, Pipfile, setup.cfg, or setup.py."@,
            )
        } else if t == "cargo"@ {
            Some("Required manifest 'Cargo.toml' is missing for this project type."@)
        } else if t == "go"@ {
            Some("Required manifest 'go.mod' is missing for this project type."@)
        } else if t == "ruby"@ {
            Some("Required manifest 'Gemfile' is missing for this project type."@)
        } else if t == "php"@ {
            Some("Required manifest 'composer.json' is missing for this project type."@)
        } else if t == "jvm"@ {
            Some("Required manifest 'build.gradle, build.gradle.kts, or pom.xml' is missing for this project type."@)
        } else if t == "dotnet"@ {
            Some("Required manifest '.csproj' is missing for this project type."@)
        } else {
            None
        },
    }
}

/// The projects found for a request: an error where a known project type
/// was asked for and none of its projects is among `specs`, and `specs`
/// otherwise.
pub fn require_project_inputs(specs: Vec<ProjectInputSpec>, project_type: Option<&str>) -> (r: Result<
    Vec<ProjectInputSpec>,
    String,
>)
    ensures
        specs@.len() == 0 && spec_missing_manifest(opt_str(project_type)) is Some ==> (r matches Err(m) && m@
            == spec_missing_manifest(opt_str(project_type))->0),
        !(specs@.len() == 0 && spec_missing_manifest(opt_str(project_type)) is Some) ==> (r matches Ok(v) && v@
            == specs@),
{
    proof {
        reveal_strlit("npm");
        reveal_strlit("pypi");
        reveal_strlit("cargo");
        reveal_strlit("go");
        reveal_strlit("ruby");
        reveal_strlit("php");
        reveal_strlit("jvm");
        reveal_strlit("dotnet");
    }
    if specs.len() > 0 {
        return Ok(specs);
    }
    let t = match project_type {
        None => {
            return Ok(specs);
        },
        Some(t) => t,
    };
    let message = if str_eq(t, "npm") {
        "Required manifest 'package.json' is missing for this project type."
    } else if str_eq(t, "pypi") {
        "Required Python manifest is missing for this project type. Expected one of: pyproject.toml, requirements*.txt, Pipfile, setup.cfg, or setup.py."
    } else if str_eq(t, "cargo") {
        "Required manifest 'Cargo.toml' is missing for this project type."
    } else if str_eq(t, "go") {
        "Required manifest 'go.mod' is missing for this project type."
    } else if str_eq(t, "ruby") {
        "Required manifest 'Gemfile' is missing for this project type."
    } else if str_eq(t, "php") {
        "Required manifest 'composer.json' is missing for this project type."
    } else if str_eq(t, "jvm") {
        "Required manifest 'build.gradle, build.gradle.kts, or pom.xml' is missing for this project type."
    } else if str_eq(t, "dotnet") {
        "Required manifest '.csproj' is missing for this project type."
    } else {
        return Ok(specs);
    };
    Err(string_of_str(message))
}

/// Narrowing to a project type twice keeps what narrowing once kept.
pub proof fn lemma_selected_idempotent(specs: Seq<ProjectInputSpec>, project_type: Option<Seq<char>>)
    ensures
        selected_specs(selected_specs(specs, project_type), project_type) == selected_specs(specs, project_type),
    decreases specs.len(),
{
    if specs.len() > 0 {
        lemma_selected_idempotent(specs.drop_first(), project_type);
        let rest = selected_specs(specs.drop_first(), project_type);
        if spec_kind_selected(specs[0].kind, project_type) {
            let s = selected_specs(specs, project_type);
            assert(s == seq![specs[0]] + rest);
            assert(s.drop_first() == rest);
        } else {
            assert(selected_specs(specs, project_type) == Seq::<ProjectInputSpec>::empty() + rest);
            assert(Seq::<ProjectInputSpec>::empty() + rest == rest);
        }
    }
}

/// Every project kept by narrowing belongs to the requested type.
pub proof fn lemma_selected_belong(specs: Seq<ProjectInputSpec>, project_type: Option<Seq<char>>)
    ensures
        forall|i: int|
            0 <= i < selected_specs(specs, project_type).len() ==> spec_kind_selected(
                (#[trigger] selected_specs(specs, project_type)[i]).kind,
                project_type,
            ),
    decreases specs.len(),
{
    if specs.len() > 0 {
        lemma_selected_belong(specs.drop_first(), project_type);
        let rest = selected_specs(specs.drop_first(), project_type);
        let s = selected_specs(specs, project_type);
        if spec_kind_selected(specs[0].kind, project_type) {
            assert(s == seq![specs[0]] + rest);
            assert forall|i: int| 0 <= i < s.len() implies spec_kind_selected((#[trigger] s[i]).kind, project_type) by {
                if i > 0 {
                    assert(s[i] == rest[i - 1]);
                }
            }
        } else {
            assert(s =~= rest);
        }
    }
}

} // verus!

use axum::http::StatusCode;
use clomonitor_router::auth::{credentials, MissingCredential};
use clomonitor_router::cache::{
    cache_control_value, max_age, DOCS_CACHE_MAX_AGE, STATIC_CACHE_MAX_AGE,
};
use clomonitor_router::page::list_in_test;
use clomonitor_router::paths::{join, site_paths};
use clomonitor_router::templates::{index_templates, TemplateError};
use clomonitor_router::web::internal_error;
use config::Config;
use tera::Context;

fn config(settings: &[(&str, &str)]) -> Config {
    let mut builder = Config::builder();
    for (key, value) in settings {
        builder = builder.set_default(*key, *value).unwrap();
    }
    builder.build().unwrap()
}

#[test]
fn cache_durations() {
    assert_eq!(STATIC_CACHE_MAX_AGE, 31_536_000);
    assert_eq!(DOCS_CACHE_MAX_AGE, 300);
}

#[test]
fn durations_are_written_in_decimal() {
    assert_eq!(max_age(0), "max-age=0");
    assert_eq!(max_age(9), "max-age=9");
    assert_eq!(max_age(10), "max-age=10");
    assert_eq!(max_age(300), "max-age=300");
    assert_eq!(max_age(31_536_000), "max-age=31536000");
    for seconds in [usize::MAX, usize::MAX / 10, 1_000_000] {
        assert_eq!(max_age(seconds), format!("max-age={seconds}"));
    }
}

#[test]
fn durations_are_header_values() {
    assert_eq!(cache_control_value(300).unwrap(), "max-age=300");
    assert_eq!(
        cache_control_value(usize::MAX).unwrap(),
        format!("max-age={}", usize::MAX)
    );
}

#[test]
fn names_are_adjoined_as_std_does() {
    for base in ["", "/", "web", "web/", "/srv/web", "/srv/web//", "."] {
        for name in ["", "docs", "index.html", "/docs", "a/b", "../docs"] {
            assert_eq!(
                join(base, name),
                std::path::Path::new(base).join(name).to_str().unwrap()
            );
        }
    }
    assert_eq!(join("web", "docs"), "web/docs");
    assert_eq!(join("web/", "docs"), "web/docs");
}

#[test]
fn the_files_lie_in_the_directory_that_the_settings_name() {
    let paths = site_paths(&config(&[("apiserver.staticPath", "/srv/web")])).unwrap();
    assert_eq!(paths.static_dir, "/srv/web");
    assert_eq!(paths.index_file, "/srv/web/index.html");
    assert_eq!(paths.docs_dir, "/srv/web/docs");
}

#[test]
fn without_a_directory_there_are_no_paths() {
    assert!(site_paths(&config(&[])).is_err());
    assert!(site_paths(&config(&[("apiserver.docsPath", "/srv/web")])).is_err());
}

#[test]
fn the_index_page_becomes_a_template() {
    let tera = match index_templates("{{ title }}") {
        Ok(tera) => tera,
        Err(_) => panic!("the page is a template"),
    };
    let mut ctx = Context::new();
    ctx.insert("title", "<&>");
    assert_eq!(tera.render("index.html", &ctx).unwrap(), "<&>");
    assert_eq!(tera.get_template_names().collect::<Vec<&str>>(), vec!["index.html"]);
}

#[test]
fn a_broken_index_page_does_not() {
    for page in ["{{ title", "{% extends \"base.html\" %}", "{{ [[1]] }}"] {
        assert!(matches!(index_templates(page), Err(TemplateError::Rejected(_))));
    }
}

#[test]
fn credentials_of_the_settings() {
    let r = credentials(&config(&[
        ("apiserver.basicAuth.enabled", "true"),
        ("apiserver.basicAuth.username", "user"),
        ("apiserver.basicAuth.password", "pass"),
    ]));
    match r {
        Ok(Some(c)) => {
            assert_eq!(c.username, "user");
            assert_eq!(c.password, "pass");
        }
        _ => panic!("there are credentials"),
    }
}

#[test]
fn credentials_are_not_needed_where_none_are_asked_for() {
    assert!(matches!(credentials(&config(&[])), Ok(None)));
    assert!(matches!(
        credentials(&config(&[("apiserver.basicAuth.enabled", "false")])),
        Ok(None)
    ));
}

#[test]
fn the_username_is_looked_for_first() {
    let r = credentials(&config(&[("apiserver.basicAuth.enabled", "true")]));
    assert!(matches!(r, Err(MissingCredential::Username(_))));
    let r = credentials(&config(&[
        ("apiserver.basicAuth.enabled", "true"),
        ("apiserver.basicAuth.username", "user"),
    ]));
    assert!(matches!(r, Err(MissingCredential::Password(_))));
}

#[test]
fn an_error_is_answered_with_its_text() {
    let (status, text) = internal_error("disk on fire");
    assert_eq!(status, StatusCode::INTERNAL_SERVER_ERROR);
    assert_eq!(text, "internal error: disk on fire");
}

#[test]
fn a_list_that_is_handed_to_a_test_is_found() {
    for page in [
        "{{ a is in([1]) }}",
        "{{- a is in( \t\r\n[1]) -}}",
        "{% if a is b(1, [2]) %}{% endif %}",
        "{% if a is not b(\",\", [2]) %}{% endif %}",
        "{% set x = f(k=a is in([\"}}\"])) %}",
        "{# ( #}text{{ a is in([1]) }}",
        "{#}#}{{ a is in([1]) }}",
        "{% raw %}{{ {% endraw %}{{ a is in([1]) }}",
        "{%-raw-%}{% end %}{%- endraw -%}{{ a is in([1]) }}",
        "f([1]) {{ title }} {{ a is in([1]) }}",
        "{ {{ `'` ~ a is in([1]) }}",
    ] {
        assert!(list_in_test(page));
        assert!(matches!(index_templates(page), Err(TemplateError::ListInTest)));
    }
}

#[test]
fn other_lists_are_left_alone() {
    for page in [
        "",
        "f([1])",
        "{{ title }}<script>f([1], [2])</script>",
        "{# a is in([1]) #}",
        "{#- {{ a is in([1]) }} -#}",
        "{% raw %}{{ a is in([1]) }}{% endraw %}",
        "{%- raw -%}{{ a is in([1]) }}{% endrow %}([1]){%-endraw-%}([1])",
        "{{ \"([1])\" ~ '([1])' ~ `([1])` }}",
        "{{ a[0] }}{{ [1, 2] | first }}{{ f(k=[1], l=[2]) }}",
        "{% for x in [1, 2] %}{{ x }}([1]){% endfor %}",
        "{% if a in [1] and a is odd %}{% endif %}",
        "{% set x = [\"a\", b[1], (c)] %}",
        "}}([1])%}([1])",
    ] {
        assert!(!list_in_test(page));
        assert!(index_templates(page).is_ok());
    }
}

use fmtna::naming_conventions::apply_nc;
use fmtna::naming_conventions::camel_case;
use fmtna::naming_conventions::capitalize;
use fmtna::naming_conventions::is_special;
use fmtna::naming_conventions::kebab_case;
use fmtna::naming_conventions::lower;
use fmtna::naming_conventions::pascal_case;
use fmtna::naming_conventions::snake_case;
use fmtna::naming_conventions::upper;
use fmtna::naming_conventions::NamingConvention;

#[test]
fn test_snake_case() {
    assert_eq!(snake_case("", false, false, false), "");
    assert_eq!(snake_case("a", false, false, false), "a");
    assert_eq!(snake_case("A", false, false, false), "a");
    assert_eq!(snake_case("from_snake_case", false, false, false), "from_snake_case");
    assert_eq!(snake_case("FROM_UPPERCASE", false, false, false), "from_uppercase");
    assert_eq!(snake_case("fromlowercase", false, false, false), "fromlowercase");
    assert_eq!(snake_case("fromCamelCase", false, false, false), "from_camel_case");
    assert_eq!(snake_case("FromPascalCase", false, false, false), "from_pascal_case");
    assert_eq!(snake_case("from-kebab-case", false, false, false), "from_kebab_case");
    assert_eq!(snake_case("fRo_m`WHAT.ev-eR!", false, false, false), "f_ro_mwhat_ev_e_r");
    assert_eq!(snake_case("fRo_m`WHAT.ev-eR!", true, true, false), "f_ro_m`what.ev_e_r!");
    assert_eq!(
        snake_case("é çà devrait être 'asciifié'", false, false, false),
        "e_ca_devrait_etre_asciifie"
    );
    assert_eq!(
        snake_case("é çà devrait être 'asciifié' mais en gardant les guillemets", false, true, false),
        "e_ca_devrait_etre_'asciifie'_mais_en_gardant_les_guillemets"
    );
    assert_eq!(snake_case(".dotfile", false, false, false), ".dotfile");
}

#[test]
fn test_lower() {
    assert_eq!(lower("", false, false, false), "");
    assert_eq!(lower("a", false, false, false), "a");
    assert_eq!(lower("A", false, false, false), "a");
    assert_eq!(lower("from_snake_case", false, false, false), "from_snake_case");
    assert_eq!(lower("FROM_UPPERCASE", false, false, false), "from_uppercase");
    assert_eq!(lower("fromlowercase", false, false, false), "fromlowercase");
    assert_eq!(lower("fromCamelCase", false, false, false), "fromcamelcase");
    assert_eq!(lower("FromPascalCase", false, false, false), "frompascalcase");
    assert_eq!(lower("from-kebab-case", false, false, false), "from-kebab-case");
    assert_eq!(lower("fRo_m`WHAT.ev-eR!", false, false, false), "fro_mwhat.ev-er");
    assert_eq!(
        lower("é çà devrait être 'asciifié'", false, false, false),
        "e ca devrait etre asciifie"
    );
    assert_eq!(
        lower("é çà devrait être 'asciifié' mais en gardant les guillemets", false, true, false),
        "e ca devrait etre 'asciifie' mais en gardant les guillemets"
    );
    assert_eq!(lower(".dotfile", false, false, false), ".dotfile");
}

#[test]
fn test_upper() {
    assert_eq!(upper("", false, false, false), "");
    assert_eq!(upper("a", false, false, false), "A");
    assert_eq!(upper("A", false, false, false), "A");
    assert_eq!(upper("from_snake_case", false, false, false), "FROM_SNAKE_CASE");
    assert_eq!(upper("FROM_UPPERCASE", false, false, false), "FROM_UPPERCASE");
    assert_eq!(upper("fromlowercase", false, false, false), "FROMLOWERCASE");
    assert_eq!(upper("fromCamelCase", false, false, false), "FROMCAMELCASE");
    assert_eq!(upper("FromPascalCase", false, false, false), "FROMPASCALCASE");
    assert_eq!(upper("from-kebab-case", false, false, false), "FROM-KEBAB-CASE");
    assert_eq!(upper("fRo_m`WHAT.ev-eR!", false, false, false), "FRO_MWHAT.EV-ER");
    assert_eq!(
        upper("é çà devrait être 'asciifié'", false, false, false),
        "E CA DEVRAIT ETRE ASCIIFIE"
    );
    assert_eq!(
        upper("é çà devrait être 'asciifié' mais en gardant les guillemets", false, true, false),
        "E CA DEVRAIT ETRE 'ASCIIFIE' MAIS EN GARDANT LES GUILLEMETS"
    );
    assert_eq!(upper(".dotfile", false, false, false), ".DOTFILE");
}

#[test]
fn test_camel_case() {
    assert_eq!(camel_case("", false, false, false), "");
    assert_eq!(camel_case("a", false, false, false), "a");
    assert_eq!(camel_case("A", false, false, false), "a");
    assert_eq!(camel_case("from_snake_case", false, false, false), "fromSnakeCase");
    assert_eq!(camel_case("FROM_UPPERCASE", false, false, false), "fromUppercase");
    assert_eq!(camel_case("fromlowercase", false, false, false), "fromlowercase");
    assert_eq!(camel_case("fromCamelCase", false, false, false), "fromCamelCase");
    assert_eq!(camel_case("FromPascalCase", false, false, false), "fromPascalCase");
    assert_eq!(camel_case("from-kebab-case", false, false, false), "fromKebabCase");
    assert_eq!(camel_case("fRo_m`WHAT.ev-eR!", false, false, false), "fRoMwhatEvER");
    assert_eq!(
        camel_case("é çà devrait être 'asciifié'", false, false, false),
        "eCaDevraitEtreAsciifie"
    );
    assert_eq!(
        camel_case("é çà devrait être 'asciifié' mais en gardant les guillemets", false, true, false),
        "eCaDevraitEtre'Asciifie'MaisEnGardantLesGuillemets"
    );
    assert_eq!(
        camel_case("_separator_at_beginning_and_end_", false, false, false),
        "separatorAtBeginningAndEnd"
    );
    assert_eq!(
        camel_case("_____multiple_______separators_____", false, false, false),
        "multipleSeparators"
    );
    assert_eq!(camel_case(".dotfile", false, false, false), ".dotfile");
}

#[test]
fn test_pascal_case() {
    assert_eq!(pascal_case("", false, false, false), "");
    assert_eq!(pascal_case("a", false, false, false), "A");
    assert_eq!(pascal_case("A", false, false, false), "A");
    assert_eq!(pascal_case("from_snake_case", false, false, false), "FromSnakeCase");
    assert_eq!(pascal_case("FROM_UPPERCASE", false, false, false), "FromUppercase");
    assert_eq!(pascal_case("fromlowercase", false, false, false), "Fromlowercase");
    assert_eq!(pascal_case("fromCamelCase", false, false, false), "FromCamelCase");
    assert_eq!(pascal_case("FromPascalCase", false, false, false), "FromPascalCase");
    assert_eq!(pascal_case("from-kebab-case", false, false, false), "FromKebabCase");
    assert_eq!(pascal_case("fRo_m`WHAT.ev-eR!", false, false, false), "FRoMwhatEvER");
    assert_eq!(
        pascal_case("é çà devrait être 'asciifié'", false, false, false),
        "ECaDevraitEtreAsciifie"
    );
    assert_eq!(
        pascal_case("é çà devrait être 'asciifié' mais en gardant les guillemets", false, true, false),
        "ECaDevraitEtre'Asciifie'MaisEnGardantLesGuillemets"
    );
    assert_eq!(
        pascal_case("_separator_at_beginning_and_end_", false, false, false),
        "SeparatorAtBeginningAndEnd"
    );
    assert_eq!(
        pascal_case("_____multiple_______separators_____", false, false, false),
        "MultipleSeparators"
    );
    assert_eq!(pascal_case(".dotfile", false, false, false), ".dotfile");
}

#[test]
fn test_kebab_case() {
    assert_eq!(kebab_case("", false, false, false), "");
    assert_eq!(kebab_case("a", false, false, false), "a");
    assert_eq!(kebab_case("A", false, false, false), "a");
    assert_eq!(kebab_case("from_snake_case", false, false, false), "from-snake-case");
    assert_eq!(kebab_case("FROM_UPPERCASE", false, false, false), "from-uppercase");
    assert_eq!(kebab_case("fromlowercase", false, false, false), "fromlowercase");
    assert_eq!(kebab_case("fromCamelCase", false, false, false), "from-camel-case");
    assert_eq!(kebab_case("FromPascalCase", false, false, false), "from-pascal-case");
    assert_eq!(kebab_case("from-kebab-case", false, false, false), "from-kebab-case");
    assert_eq!(kebab_case("fRo_m`WHAT.ev-eR!", false, false, false), "f-ro-mwhat-ev-e-r");
    assert_eq!(
        kebab_case("é çà devrait être 'asciifié'", false, false, false),
        "e-ca-devrait-etre-asciifie"
    );
    assert_eq!(
        kebab_case("é çà devrait être 'asciifié' mais en gardant les guillemets", false, true, false),
        "e-ca-devrait-etre-'asciifie'-mais-en-gardant-les-guillemets"
    );
    assert_eq!(kebab_case(".dotfile", false, false, false), ".dotfile");
}

#[test]
fn separator_collapse_in_snake_case() {
    assert_eq!(
        snake_case("_____multiple_______separators_____", false, false, false),
        "multiple_separators"
    );
    assert_eq!(kebab_case("__a__b__", false, false, false), "a-b");
}

#[test]
fn case_boundary_splitting() {
    assert_eq!(snake_case("fromCamelCase", false, false, false), "from_camel_case");
}

#[test]
fn dotfile_preserved_by_camel_case() {
    assert_eq!(camel_case(".dotfile", false, false, false), ".dotfile");
}

#[test]
fn unicode_folding_on_and_off() {
    assert_eq!(snake_case("é çà", false, false, false), "e_ca");
    assert_eq!(snake_case("é çà", false, false, true), "é_çà");
}

#[test]
fn kept_unicode_goes_through_the_real_case_tables() {
    // lowercase mapping of a kept non-ASCII uppercase letter
    assert_eq!(snake_case("Éa", false, false, true), "éa");
    // case boundary detected after a non-ASCII lowercase letter
    assert_eq!(snake_case("éA", false, false, true), "é_a");
    // full-string case mapping with kept non-ASCII letters
    assert_eq!(lower("ÉPÉE", false, false, true), "épée");
    assert_eq!(upper("épée", false, false, true), "ÉPÉE");
    // capitalization of a non-ASCII first letter
    assert_eq!(pascal_case("épée", false, false, true), "Épée");
}

#[test]
fn applying_twice_changes_nothing() {
    let cases = [
        "fRo_m`WHAT.ev-eR!",
        "FROM_UPPERCASE",
        "_____multiple_______separators_____",
        ".dotfile",
        "é çà devrait être 'asciifié'",
        "",
    ];
    let ncs = [
        NamingConvention::SnakeCase,
        NamingConvention::KebabCase,
        NamingConvention::Lower,
        NamingConvention::Upper,
    ];
    for s in cases {
        for nc in &ncs {
            let once = apply_nc(nc, s, false, false, false);
            let twice = apply_nc(nc, &once, false, false, false);
            assert_eq!(twice, once, "convention {:?} on {:?}", nc, s);
        }
    }
    // camelCase and PascalCase, on names whose conversion keeps uppercase
    // only right after lowercase
    for s in ["from_snake_case", "fromCamelCase", ".dotfile", "plain"] {
        for nc in [NamingConvention::CamelCase, NamingConvention::PascalCase] {
            let once = apply_nc(&nc, s, false, false, false);
            let twice = apply_nc(&nc, &once, false, false, false);
            assert_eq!(twice, once, "convention {:?} on {:?}", nc, s);
        }
    }
}

#[test]
fn apply_nc_dispatches_each_convention() {
    let s = "from_snake_case";
    assert_eq!(apply_nc(&NamingConvention::CamelCase, s, false, false, false), "fromSnakeCase");
    assert_eq!(apply_nc(&NamingConvention::KebabCase, s, false, false, false), "from-snake-case");
    assert_eq!(apply_nc(&NamingConvention::SnakeCase, s, false, false, false), "from_snake_case");
    assert_eq!(apply_nc(&NamingConvention::PascalCase, s, false, false, false), "FromSnakeCase");
    assert_eq!(apply_nc(&NamingConvention::Lower, s, false, false, false), "from_snake_case");
    assert_eq!(apply_nc(&NamingConvention::Upper, s, false, false, false), "FROM_SNAKE_CASE");
}

#[test]
fn capitalize_and_is_special() {
    assert_eq!(capitalize(""), "");
    assert_eq!(capitalize("abc"), "Abc");
    assert_eq!(capitalize(".abc"), ".abc");
    assert!(is_special(&'!'));
    assert!(is_special(&'_'));
    assert!(!is_special(&'a'));
    assert!(!is_special(&'7'));
    assert!(!is_special(&'é'));
}

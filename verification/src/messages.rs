//! The program's messages, in French or in English.

use vstd::prelude::*;

use crate::text::{chars_of, contains_chars, has_prefix, occurs_in, starts_with_chars};

verus! {

broadcast use vstd::string::to_string_from_display_ensures_for_str;

/// Whether a language setting asks for French: it begins with `fr`.
pub open spec fn is_french(lang: Seq<char>) -> bool {
    has_prefix(lang, "fr"@)
}

/// The language code of a `LANG` setting: `fr` where it holds `fr`
/// anywhere, else `en`; `en` where it is unset.
pub open spec fn language_code(lang_var: Option<Seq<char>>) -> Seq<char> {
    match lang_var {
        Some(l) => if occurs_in(l, "fr"@) {
            "fr"@
        } else {
            "en"@
        },
        None => "en"@,
    }
}

/// The language code of a `LANG` setting (`None` where it is unset or
/// unreadable): `fr` where it holds `fr` anywhere, else `en`.
pub fn detect_language(lang_var: Option<&str>) -> (code: String)
    ensures
        code@ == language_code(
            match lang_var {
                Some(l) => Some(l@),
                None => None,
            },
        ),
{
    match lang_var {
        Some(lang) => {
            let l = chars_of(lang);
            let fr = chars_of("fr");
            if contains_chars(&l, &fr) {
                "fr".to_string()
            } else {
                "en".to_string()
            }
        },
        None => "en".to_string(),
    }
}

} // verus!

verus! {

/// The program's messages in one language.
pub struct Messages {
    pub title: String,
    pub author: String,
    pub website: String,
    pub usage: String,
    pub memory_error: String,
    pub memory_unit_error: String,
    pub swap_warning: String,
    pub total_memory: String,
    pub available_memory: String,
    pub filling_memory: String,
    pub verifying_memory: String,
    pub filling_complete: String,
    pub verification_complete: String,
    pub test_success: String,
    pub test_failed: String,
    pub error_at_address: String,
    pub summary: String,
    pub loop_count: String,
    pub total_errors: String,
    pub total_tested: String,
    pub total_time: String,
    pub interrupted: String,
    pub error_map: String,
    pub press_esc: String,
    pub block_size: String,
    pub test_list: String,
    pub test_running: String,
    pub test_select: String,
    pub ultra_mode: String,
    pub normal_mode: String,
    pub test_complete: String,
    pub all_tests_complete: String,
}

impl Messages {
    /// The messages, in the order of the fields.
    pub open spec fn texts(&self) -> Seq<Seq<char>> {
        seq![
            self.title@,
            self.author@,
            self.website@,
            self.usage@,
            self.memory_error@,
            self.memory_unit_error@,
            self.swap_warning@,
            self.total_memory@,
            self.available_memory@,
            self.filling_memory@,
            self.verifying_memory@,
            self.filling_complete@,
            self.verification_complete@,
            self.test_success@,
            self.test_failed@,
            self.error_at_address@,
            self.summary@,
            self.loop_count@,
            self.total_errors@,
            self.total_tested@,
            self.total_time@,
            self.interrupted@,
            self.error_map@,
            self.press_esc@,
            self.block_size@,
            self.test_list@,
            self.test_running@,
            self.test_select@,
            self.ultra_mode@,
            self.normal_mode@,
            self.test_complete@,
            self.all_tests_complete@,
        ]
    }

    /// The messages in French where `lang` begins with `fr`, else in English.
    pub fn new(lang: &str) -> (m: Self)
        ensures
            m.texts() == if is_french(lang@) {
                french_texts()
            } else {
                english_texts()
            },
    {
        let l = chars_of(lang);
        let fr = chars_of("fr");
        if starts_with_chars(&l, &fr) {
            Messages {
                title: "RAMtester v3.0".to_string(),
                author: "2025-2026, Philippe TEMESI".to_string(),
                website: "https://www.tems.be".to_string(),
                usage: "Utilisation : ramtester <taille> (ex: 512M, 2G ou MAX) [--loop] [--test <N>] [--ultra]".to_string(),
                memory_error: "Erreur : impossible d'allouer ".to_string(),
                memory_unit_error: "Unité invalide. Utilisez M (Méga), G (Giga) ou MAX.".to_string(),
                swap_warning: "Attention! Quantité demandée supérieure à la mémoire disponible. Risque de SWAP!!!".to_string(),
                total_memory: "Mémoire totale du système: ".to_string(),
                available_memory: "Mémoire disponible : ".to_string(),
                filling_memory: "Remplissage de la mémoire en cours...".to_string(),
                verifying_memory: "Vérification de la mémoire en cours...".to_string(),
                filling_complete: "Remplissage terminé en ".to_string(),
                verification_complete: "Vérification terminée en ".to_string(),
                test_success: "Test réussi : aucune erreur détectée.".to_string(),
                test_failed: "Test échoué : ".to_string(),
                error_at_address: "Erreur à l'adresse : ".to_string(),
                summary: "===== Récapitulatif =====".to_string(),
                loop_count: "Nombre de boucles effectuées : ".to_string(),
                total_errors: "Erreurs totales détectées : ".to_string(),
                total_tested: "Quantité totale de mémoire testée : ".to_string(),
                total_time: "Temps total écoulé : ".to_string(),
                interrupted: "Test interrompu par l'utilisateur.".to_string(),
                error_map: "Carte des erreurs mémoire".to_string(),
                press_esc: "Appuyez sur ESC pour continuer...".to_string(),
                block_size: "1 car. = ".to_string(),
                test_list: "Tests disponibles :".to_string(),
                test_running: "Test en cours : ".to_string(),
                test_select: "Test sélectionné : ".to_string(),
                ultra_mode: "Mode ULTRA : tous les tests (1-16)".to_string(),
                normal_mode: "Mode NORMAL : tests 1-10 et 12-16".to_string(),
                test_complete: "Test terminé ".to_string(),
                all_tests_complete: "Tous les tests terminés".to_string(),
            }
        } else {
            Messages {
                title: "RAMtester v3.0".to_string(),
                author: "2025-2026, Philippe TEMESI".to_string(),
                website: "https://www.tems.be".to_string(),
                usage: "Usage: ramtester <size> (ex: 512M, 2G or MAX) [--loop] [--test <N>] [--ultra]".to_string(),
                memory_error: "Error: unable to allocate ".to_string(),
                memory_unit_error: "Invalid unit. Use M (Mega), G (Giga) or MAX.".to_string(),
                swap_warning: "Warning! Requested size exceeds available memory. Risk of SWAP!!!".to_string(),
                total_memory: "Total system memory: ".to_string(),
                available_memory: "Available memory: ".to_string(),
                filling_memory: "Filling memory...".to_string(),
                verifying_memory: "Verifying memory...".to_string(),
                filling_complete: "Filling completed in ".to_string(),
                verification_complete: "Verification completed in ".to_string(),
                test_success: "Test successful: no errors detected.".to_string(),
                test_failed: "Test failed: ".to_string(),
                error_at_address: "Error at address: ".to_string(),
                summary: "===== Summary =====".to_string(),
                loop_count: "Number of loops completed: ".to_string(),
                total_errors: "Total errors detected: ".to_string(),
                total_tested: "Total memory tested: ".to_string(),
                total_time: "Total time elapsed: ".to_string(),
                interrupted: "Test interrupted by user.".to_string(),
                error_map: "Memory Error Map".to_string(),
                press_esc: "Press ESC to continue...".to_string(),
                block_size: "1 char = ".to_string(),
                test_list: "Available tests:".to_string(),
                test_running: "Running test: ".to_string(),
                test_select: "Selected test: ".to_string(),
                ultra_mode: "ULTRA mode: all tests (1-16)".to_string(),
                normal_mode: "NORMAL mode: tests 1-10 and 12-16".to_string(),
                test_complete: "Test completed ".to_string(),
                all_tests_complete: "All tests completed".to_string(),
            }
        }
    }
}

/// The messages in French, in the order of the fields of `Messages`.
pub open spec fn french_texts() -> Seq<Seq<char>> {
    seq![
        "RAMtester v3.0"@,
        "2025-2026, Philippe TEMESI"@,
        "https://www.tems.be"@,
        "Utilisation : ramtester <taille> (ex: 512M, 2G ou MAX) [--loop] [--test <N>] [--ultra]"@,
        "Erreur : impossible d'allouer "@,
        "Unité invalide. Utilisez M (Méga), G (Giga) ou MAX."@,
        "Attention! Quantité demandée supérieure à la mémoire disponible. Risque de SWAP!!!"@,
        "Mémoire totale du système: "@,
        "Mémoire disponible : "@,
        "Remplissage de la mémoire en cours..."@,
        "Vérification de la mémoire en cours..."@,
        "Remplissage terminé en "@,
        "Vérification terminée en "@,
        "Test réussi : aucune erreur détectée."@,
        "Test échoué : "@,
        "Erreur à l'adresse : "@,
        "===== Récapitulatif ====="@,
        "Nombre de boucles effectuées : "@,
        "Erreurs totales détectées : "@,
        "Quantité totale de mémoire testée : "@,
        "Temps total écoulé : "@,
        "Test interrompu par l'utilisateur."@,
        "Carte des erreurs mémoire"@,
        "Appuyez sur ESC pour continuer..."@,
        "1 car. = "@,
        "Tests disponibles :"@,
        "Test en cours : "@,
        "Test sélectionné : "@,
        "Mode ULTRA : tous les tests (1-16)"@,
        "Mode NORMAL : tests 1-10 et 12-16"@,
        "Test terminé "@,
        "Tous les tests terminés"@,
    ]
}

/// The messages in English, in the order of the fields of `Messages`.
pub open spec fn english_texts() -> Seq<Seq<char>> {
    seq![
        "RAMtester v3.0"@,
        "2025-2026, Philippe TEMESI"@,
        "https://www.tems.be"@,
        "Usage: ramtester <size> (ex: 512M, 2G or MAX) [--loop] [--test <N>] [--ultra]"@,
        "Error: unable to allocate "@,
        "Invalid unit. Use M (Mega), G (Giga) or MAX."@,
        "Warning! Requested size exceeds available memory. Risk of SWAP!!!"@,
        "Total system memory: "@,
        "Available memory: "@,
        "Filling memory..."@,
        "Verifying memory..."@,
        "Filling completed in "@,
        "Verification completed in "@,
        "Test successful: no errors detected."@,
        "Test failed: "@,
        "Error at address: "@,
        "===== Summary ====="@,
        "Number of loops completed: "@,
        "Total errors detected: "@,
        "Total memory tested: "@,
        "Total time elapsed: "@,
        "Test interrupted by user."@,
        "Memory Error Map"@,
        "Press ESC to continue..."@,
        "1 char = "@,
        "Available tests:"@,
        "Running test: "@,
        "Selected test: "@,
        "ULTRA mode: all tests (1-16)"@,
        "NORMAL mode: tests 1-10 and 12-16"@,
        "Test completed "@,
        "All tests completed"@,
    ]
}

} // verus!

verus! {

/// A `LANG` setting that holds `fr` anywhere gives the French messages;
/// any other setting, or none, gives the English ones.
pub proof fn law_language_choice(lang_var: Option<Seq<char>>)
    ensures
        is_french(language_code(lang_var)) == (lang_var matches Some(l) && occurs_in(l, "fr"@)),
{
    reveal_strlit("fr");
    reveal_strlit("en");
    assert("fr"@.subrange(0, 2) =~= "fr"@);
    assert("en"@.subrange(0, 2)[0] == 'e');
    assert("en"@.subrange(0, 2) != "fr"@);
}

} // verus!

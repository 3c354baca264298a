//! The reserved words of the language.

use vstd::prelude::*;
use crate::text::text_of;
use crate::tokens::{TokenType, TokenTypeView};

verus! {

/// The kind of token that a word stands for, if the word is reserved.
pub open spec fn spec_palavras_chave(word: Seq<char>) -> Option<TokenTypeView> {
    if word == "variavel"@ {
        Some(TokenTypeView::Variavel)
    } else if word == "se"@ {
        Some(TokenTypeView::Se)
    } else if word == "senao"@ {
        Some(TokenTypeView::Senao)
    } else if word == "enquanto"@ {
        Some(TokenTypeView::Enquanto)
    } else if word == "para"@ {
        Some(TokenTypeView::Para)
    } else if word == "funcao"@ {
        Some(TokenTypeView::Funcao)
    } else if word == "retornar"@ {
        Some(TokenTypeView::Retornar)
    } else if word == "verdadeiro"@ {
        Some(TokenTypeView::Verdadeiro)
    } else if word == "falso"@ {
        Some(TokenTypeView::Falso)
    } else if word == "imprimir"@ {
        Some(TokenTypeView::Imprimir)
    } else if word == "e"@ {
        Some(TokenTypeView::E)
    } else if word == "ou"@ {
        Some(TokenTypeView::Ou)
    } else if word == "nao"@ {
        Some(TokenTypeView::Nao)
    } else if word == "nulo"@ {
        Some(TokenTypeView::Nulo)
    } else if word == "quebrar"@ {
        Some(TokenTypeView::Break)
    } else if word == "continuar"@ {
        Some(TokenTypeView::Continue)
    } else {
        None
    }
}

/// Looks a word up among the reserved words.
pub fn palavras_chave(word: &String) -> (r: Option<TokenType>)
    ensures
        r.deep_view() == spec_palavras_chave(word@),
{
    if *word == text_of("variavel") {
        Some(TokenType::Variavel)
    } else if *word == text_of("se") {
        Some(TokenType::Se)
    } else if *word == text_of("senao") {
        Some(TokenType::Senao)
    } else if *word == text_of("enquanto") {
        Some(TokenType::Enquanto)
    } else if *word == text_of("para") {
        Some(TokenType::Para)
    } else if *word == text_of("funcao") {
        Some(TokenType::Funcao)
    } else if *word == text_of("retornar") {
        Some(TokenType::Retornar)
    } else if *word == text_of("verdadeiro") {
        Some(TokenType::Verdadeiro)
    } else if *word == text_of("falso") {
        Some(TokenType::Falso)
    } else if *word == text_of("imprimir") {
        Some(TokenType::Imprimir)
    } else if *word == text_of("e") {
        Some(TokenType::E)
    } else if *word == text_of("ou") {
        Some(TokenType::Ou)
    } else if *word == text_of("nao") {
        Some(TokenType::Nao)
    } else if *word == text_of("nulo") {
        Some(TokenType::Nulo)
    } else if *word == text_of("quebrar") {
        Some(TokenType::Break)
    } else if *word == text_of("continuar") {
        Some(TokenType::Continue)
    } else {
        None
    }
}

} // verus!

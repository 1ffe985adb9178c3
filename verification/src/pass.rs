//! The two passes over one unit. The first annotates the unit and collects
//! from it. The second annotates the unit as read again, renders it with its
//! share of the synthesized declarations, and checks the text with the
//! parser.

use vstd::prelude::*;
use crate::annotate::{annotate_unit, annotated_unit};
use crate::bridge::{declarations_for, share_of, Declaration, DeclarationView};
use crate::collect::{collect_unit, gathered, Accumulator};
use crate::model::SourceUnit;
use crate::render::{
    declarations_text, function_text, render_function, render_unit, unit_text, write_declarations,
};
use crate::rules::Rules;
use crate::syntax::{check_text, well_formed};
use crate::text::views_of;

verus! {

/// The first pass over one unit. The unit is annotated in place, then what
/// it declares is recorded: the declarations that are collected are those
/// of the annotated unit.
pub fn scan_unit(unit: &mut SourceUnit, index: usize, rules: &Rules, acc: &mut Accumulator)
    ensures
        final(unit)@ == annotated_unit(old(unit)@, rules@.layout),
        final(acc)@ == gathered(old(acc)@, final(unit)@.items, index, rules@),
{
    annotate_unit(unit, &rules.layout);
    collect_unit(unit, index, rules, acc);
}

/// A text that the parser does not take.
#[derive(Clone, Debug, PartialEq, Eq)]
pub struct RenderError {
    /// The name of the unit.
    pub unit: String,
    /// The position, in the share of the unit, of the declaration that is
    /// not valid source alone; none if it is the unit as a whole.
    pub declaration: Option<usize>,
    /// What the parser said.
    pub reason: String,
}

/// Every one of the first `count` declarations, rendered alone, is valid source.
pub open spec fn all_well_formed(decls: Seq<DeclarationView>, count: int) -> bool {
    forall|k: int| 0 <= k < count ==> well_formed(#[trigger] function_text(decls[k].decl))
}

/// The check of each declaration alone: passed, or the position of the
/// first declaration that is not valid source and what the parser said.
pub fn check_declarations(decls: &Vec<Declaration>) -> (checked: Result<(), (usize, String)>)
    ensures
        checked is Ok == all_well_formed(views_of(decls@), decls@.len() as int),
        checked matches Err(e) ==> e.0 < decls@.len() && all_well_formed(
            views_of(decls@),
            e.0 as int,
        ) && !well_formed(function_text(decls@[e.0 as int]@.decl)),
{
    let mut i: usize = 0;
    while i < decls.len()
        invariant
            i <= decls@.len(),
            all_well_formed(views_of(decls@), i as int),
        decreases decls@.len() - i,
    {
        let text = render_function(&decls[i].decl);
        match check_text(text.as_str()) {
            Ok(_) => {},
            Err(reason) => {
                assert(!well_formed(function_text(views_of(decls@)[i as int].decl)));
                return Err((i, reason));
            },
        }
        assert(views_of(decls@)[i as int].decl == decls@[i as int]@.decl);
        i += 1;
    }
    Ok(())
}

/// What the two checks of a unit come to: the text, if both passed; the
/// failure of a declaration, if there is one; else that of the whole.
pub fn verdict(
    unit: &str,
    text: String,
    declarations: Result<(), (usize, String)>,
    whole: Result<(), String>,
) -> (out: Result<String, RenderError>)
    ensures
        out is Ok == (declarations is Ok && whole is Ok),
        out matches Ok(t) ==> t == text,
        out matches Err(e) ==> e.unit@ == unit@ && match declarations {
            Err(d) => e.declaration == Some(d.0) && e.reason == d.1,
            Ok(_) => e.declaration is None && whole is Err && e.reason == whole->Err_0,
        },
{
    match declarations {
        Err(d) => Err(
            RenderError { unit: String::from_str(unit), declaration: Some(d.0), reason: d.1 },
        ),
        Ok(_) => match whole {
            Err(reason) => Err(
                RenderError { unit: String::from_str(unit), declaration: None, reason },
            ),
            Ok(_) => Ok(text),
        },
    }
}

/// The second pass over one unit. The unit is annotated in place. Its text
/// with its share of `decls` appended is returned if every declaration of
/// the share, rendered alone, and the text as a whole are valid source.
pub fn emit_unit(unit: &mut SourceUnit, index: usize, decls: &Vec<Declaration>, rules: &Rules) -> (out:
    Result<String, RenderError>)
    ensures
        final(unit)@ == annotated_unit(old(unit)@, rules@.layout),
        out is Ok == (all_well_formed(
            share_of(views_of(decls@), index),
            share_of(views_of(decls@), index).len() as int,
        ) && well_formed(unit_text(final(unit)@, share_of(views_of(decls@), index)))),
        out matches Ok(text) ==> text@ == unit_text(
            final(unit)@,
            share_of(views_of(decls@), index),
        ),
        out matches Err(e) ==> e.unit@ == old(unit)@.name && match e.declaration {
            Some(k) => k < share_of(views_of(decls@), index).len() && all_well_formed(
                share_of(views_of(decls@), index),
                k as int,
            ) && !well_formed(function_text(share_of(views_of(decls@), index)[k as int].decl)),
            None => all_well_formed(
                share_of(views_of(decls@), index),
                share_of(views_of(decls@), index).len() as int,
            ),
        },
{
    annotate_unit(unit, &rules.layout);
    let share = declarations_for(decls, index);
    let declarations = check_declarations(&share);
    let text = render_unit(unit, &share);
    let whole = check_text(text.as_str());
    verdict(unit.name.as_str(), text, declarations, whole)
}

/// All synthesized declarations as one text, for a file of their own named
/// `unit`, if every declaration, rendered alone, and the text as a whole
/// are valid source.
pub fn emit_bridge(unit: &str, decls: &Vec<Declaration>) -> (out: Result<String, RenderError>)
    ensures
        out is Ok == (all_well_formed(views_of(decls@), decls@.len() as int) && well_formed(
            declarations_text(views_of(decls@)),
        )),
        out matches Ok(text) ==> text@ == declarations_text(views_of(decls@)),
        out matches Err(e) ==> e.unit@ == unit@ && match e.declaration {
            Some(k) => k < decls@.len() && all_well_formed(views_of(decls@), k as int)
                && !well_formed(function_text(decls@[k as int]@.decl)),
            None => all_well_formed(views_of(decls@), decls@.len() as int),
        },
{
    let declarations = check_declarations(decls);
    let mut text = String::new();
    write_declarations(decls, &mut text);
    assert(text@ =~= declarations_text(views_of(decls@)));
    let whole = check_text(text.as_str());
    verdict(unit, text, declarations, whole)
}

} // verus!

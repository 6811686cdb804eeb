//! The icons that stand beside symbols.
use crate::protocol::SymbolKind;
use vstd::prelude::*;

verus! {

#[derive(Clone, Copy, Debug, PartialEq, Eq, Structural)]
pub enum IconName {
    Code,
    Blocks,
    Folder,
    Dash,
}

/// The icon of a kind of symbol: blocks for types, a folder for what holds other symbols, a dash
/// for values, and code for what runs and for every other kind.
pub open spec fn icon_of(kind: SymbolKind) -> IconName {
    if kind is Class || kind is Struct || kind is Interface || kind is Enum {
        IconName::Blocks
    } else if kind is Module || kind is Namespace {
        IconName::Folder
    } else if kind is Property || kind is Field || kind is Variable || kind is Constant {
        IconName::Dash
    } else {
        IconName::Code
    }
}

/// The icon of a kind of symbol.
pub fn symbol_icon(kind: SymbolKind) -> (icon: IconName)
    ensures
        icon == icon_of(kind),
{
    match kind {
        SymbolKind::Function | SymbolKind::Method => IconName::Code,
        SymbolKind::Class | SymbolKind::Struct => IconName::Blocks,
        SymbolKind::Interface => IconName::Blocks,
        SymbolKind::Module | SymbolKind::Namespace => IconName::Folder,
        SymbolKind::Constructor => IconName::Code,
        SymbolKind::Enum => IconName::Blocks,
        SymbolKind::Property | SymbolKind::Field => IconName::Dash,
        SymbolKind::Variable | SymbolKind::Constant => IconName::Dash,
        SymbolKind::Other => IconName::Code,
    }
}

/// What is a type has blocks, what holds other symbols a folder, what is a value a dash, and
/// everything else, what runs among it, has code.
pub proof fn icons_go_by_the_kind(kind: SymbolKind)
    ensures
        icon_of(SymbolKind::Class) == IconName::Blocks,
        icon_of(SymbolKind::Struct) == IconName::Blocks,
        icon_of(SymbolKind::Interface) == IconName::Blocks,
        icon_of(SymbolKind::Enum) == IconName::Blocks,
        icon_of(SymbolKind::Module) == IconName::Folder,
        icon_of(SymbolKind::Namespace) == IconName::Folder,
        icon_of(SymbolKind::Property) == IconName::Dash,
        icon_of(SymbolKind::Field) == IconName::Dash,
        icon_of(SymbolKind::Variable) == IconName::Dash,
        icon_of(SymbolKind::Constant) == IconName::Dash,
        icon_of(kind) == IconName::Code <==> kind == SymbolKind::Function || kind
            == SymbolKind::Method || kind == SymbolKind::Constructor || kind == SymbolKind::Other,
{
}

} // verus!

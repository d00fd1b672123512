use dezes::i18n::{fill, Lang, M};

const ALL: &[M] = &[
    M::Help, M::Edit, M::HeaderView, M::Refs, M::Strings, M::TextView, M::About,
    M::Reload, M::ReloadTitle, M::ConfirmReloadPrompt, M::ConfirmReloadOptions, M::FileReloaded,
    M::Open, M::Save, M::SaveQuit, M::HexView, M::Type, M::Column, M::Case, M::Select, M::Done,
    M::Copy, M::Modify, M::Color, M::Clear, M::Data, M::Goto, M::Find, M::Replace,
    M::Patches, M::Xref, M::Addr, M::Undo, M::Redo, M::Encoding, M::Encoding2, M::Highlight,
    M::Log, M::Names, M::Bookmarks, M::RevertByte, M::ImageBase, M::DecodeWidth, M::ReadOnly,
    M::HelpTitle, M::HelpFooter, M::SettingsTitle, M::SettingsFooter, M::NamesFooter,
    M::MinimumLength, M::NoteByteline, M::NoteCtrlchar, M::NoteEnc1, M::NoteEnc2,
    M::NoteAddr, M::NoteBitness, M::NoteView, M::NoteTheme, M::NoteDb, M::NoteDimctrl,
    M::NoteDimzero, M::NoteWrapscan, M::NoteHighlight, M::NoteHintbar, M::NoteLang,
    M::NoteDisasmColor, M::AboutTitle, M::AboutFooter, M::LogTitle, M::LogFooter,
    M::CalculatorTitle, M::GotoTitle, M::ModifyBlockTitle, M::OperationTitle,
    M::NamesTitle, M::NoNames, M::StringsTitle, M::RegexTitle, M::FilterRegexTitle,
    M::AssembleTitle, M::AddSectionTitle, M::SelectDriveTitle, M::CommentAtTitle,
    M::XrefTitle, M::XrefLimitReached, M::StringRefsTitle, M::OpenFileTitle,
    M::ImageBaseTitle, M::EditDataTitle, M::PatchesTitle, M::PatchesFooterKeys, M::NoPatches, M::FoundCount,
    M::BookmarksTitle, M::BookmarksFooterKeys, M::NoBookmarks, M::BookmarkAddTitle, M::BookmarkEditTitle,
    M::BookmarkInputHint, M::LblNo, M::LblLabel, M::LblPreview,
    M::ReadOnlyRefused, M::RoEditData, M::RoPaste, M::RoCase, M::RoEditMode,
    M::RoFillZero, M::RoFillNop, M::RoModifyBlock, M::RoAssemble, M::RoNopOut,
    M::RoSectionTools, M::RoStringEdit,
    M::ErrNothingSelected, M::ErrSaveFailedQuit, M::ErrSaveError,
    M::ErrCommentOutside, M::ErrRefusingAssemble, M::ErrFailedAssemble,
    M::ErrSwitchValue, M::ErrNeedsNumberAuto, M::ErrBytelineZero,
    M::ErrNotByteCount, M::ErrNeedsCharacter, M::ErrOneCharacter, M::ErrViewNames,
    M::ErrAddrNames, M::ErrNoCodeSection, M::ErrNoPEHeader, M::ErrLangNeedsValue, M::ErrUnknownLang,
    M::ErrUnknownOptionSuggest, M::ErrUnknownOption, M::ErrNeedsColour,
    M::ErrNotColour, M::ErrUnknownEncoding, M::WarnRegexEmptyOnly,
    M::StringEditTitle, M::ErrStringTooLong, M::ErrAsciiOnly, M::StringReplaced,
    M::StringsFooterKeys, M::StringEditFooterKeys, M::RefsFooterKeys, M::XrefFooterKeys,
    M::LblAllEncodings,
    M::ErrAddressOutOfBounds, M::ErrInvalidAddressExpr, M::ErrInvalidNumericValue,
    M::ErrNothingToCopy, M::ErrClipboardAccess, M::ErrAltMSelectionNeeded,
    M::ErrNoSectionPicked, M::ErrNoRoomForSectionHeader, M::LblSectionNameMax8,
    M::LblFileBase, M::ErrNothingToAssemble, M::ErrFileReadOnly, M::ErrAssemblePastEof,
    M::ErrNotAnAddress,
    M::LblType, M::LblAddress, M::LblInstruction, M::LblDisassembly,
    M::LblTextString, M::LblOriginalToPatched, M::LblSize, M::LblValue, M::LblStep, M::LblSearch, M::LblReplace,
    M::LblSubDir, M::LblError, M::ReplacePatternTitle, M::ReplaceHint,
    M::FindPatternTitle, M::FindHint, M::BytesSelected, M::MatchAtOffset, M::MatchAtVa,
    M::ReplacedAt, M::ReplacedCount, M::NotAtAMatch,
    M::FindEnterHex, M::FindInvalidHex, M::FindEnterText,
    M::FindNoMatch, M::SizeHexHint, M::ErrFieldNotNumeric, M::ErrSectionSizeZero, M::ErrNoPeHeaders,
    M::ErrNoOptionalHeader, M::ErrSectionTooBig,
    M::DonePointerToRawData, M::DoneAslrRemoved, M::NoteAslrNotSet, M::DoneSectionAdded,
    M::SecToolsTitle, M::SecToolAlignOffsetsTitle, M::SecToolAlignOffsetsDesc,
    M::SecToolAddSectionTitle, M::SecToolAddSectionDesc, M::SecToolDumpSectionTitle,
    M::SecToolDumpSectionDesc, M::SecToolDeleteLastSectionTitle, M::SecToolDeleteLastSectionDesc,
    M::SecToolFixSizeOfImageTitle, M::SecToolFixSizeOfImageDesc, M::SecToolRemoveAslrTitle,
    M::SecToolRemoveAslrDesc,
    M::DoneOpenedFile, M::ErrOpeningFile, M::DoneSavedLogs, M::ErrFailedToSaveLog,
    M::DoneBytesWritten, M::DoneSavedAs, M::DoneBlockSaved, M::DoneLogCopied, M::DoneLogCleared,
    M::ErrFilenameRequiredForWb,
    M::DoneAssembledPadded, M::DoneAssembled,
    M::OpAdd, M::OpSub, M::OpMul, M::OpDiv, M::OpXor, M::OpOr, M::OpAnd, M::OpNot,
    M::OpEndianSwap, M::OpShiftLeft, M::OpShiftRight, M::OpRandom, M::OpRollingXor,
    M::CalcUsage, M::CalcError, M::CopiedFromStatusBar,
];

#[test]
fn test_i18n_translation_matrix_integrity() {
    for &msg in ALL {
        let [en, ko, zh] = msg.table();

        assert!(!en.is_empty(), "English translation is empty for {:?}", msg);
        assert!(!ko.is_empty(), "Korean translation is empty for {:?}", msg);
        assert!(!zh.is_empty(), "Chinese translation is empty for {:?}", msg);

        let zh_has_hangul = zh.chars().any(|c| ('\u{AC00}'..='\u{D7A3}').contains(&c));
        assert!(
            !zh_has_hangul,
            "Chinese translation contains Hangul for {:?}: '{}'",
            msg, zh
        );
    }
}

#[test]
fn tr_picks_the_language_column() {
    assert_eq!(M::Help.tr(Lang::En), "Help");
    assert_eq!(M::Help.tr(Lang::Ko), "도움말");
    assert_eq!(M::Help.tr(Lang::Zh), "帮助");
}

#[test]
fn language_names_round_trip() {
    for lang in [Lang::En, Lang::Ko, Lang::Zh] {
        assert_eq!(Lang::from_name(lang.name()), Some(lang));
    }
    assert_eq!(Lang::from_name("  KOREAN "), Some(Lang::Ko));
    assert_eq!(Lang::from_name("中文"), Some(Lang::Zh));
    assert_eq!(Lang::from_name("klingon"), None);
    assert_eq!(Lang::Ko.label(), "ko (한국어)");
}

#[test]
fn fill_substitutes_in_order() {
    assert_eq!(fill("a {} b {} c", &["1", "2"]), "a 1 b 2 c");
    assert_eq!(fill("only {}", &["x", "y"]), "only x");
    assert_eq!(fill("{} and {}", &["x"]), "x and {}");
    assert_eq!(fill("none", &[]), "none");
}

//! What the assembler's first pass finds in a program listing.
use vstd::prelude::*;
use crate::assembler::{
    assemble, clean_line, float_at, float_operands, line_instruction, lookup_label, operand, program_of, scan_lines,
    unit_mnemonic, AsmFault, AsmScan,
};
use crate::display::{catch_label, instruction_text, is_catch_target, label_line, listing_prefix, program_text};
use crate::text::{before_char, digit_char, digits_value, int_text, is_digit, is_numeral, lemma_before_char, parse_i64, parse_int, parse_u64, parse_usize, is_ws, lines, nat_text, split_state, starts_with, trim, LineSplit};
use crate::vm::opcode::OpCodeModel;

verus! {

/// A line that the first pass keeps as it is and reads as an instruction:
/// not empty, without line break or comment sign, without whitespace at
/// either end, and not a label definition.
pub open spec fn clean_text(t: Seq<char>) -> bool {
    &&& t.len() > 0
    &&& !t.contains('\n')
    &&& !t.contains(';')
    &&& !is_ws(t[0])
    &&& !is_ws(t.last())
    &&& !starts_with(t, "LABEL "@)
}

/// The characters of the mnemonics and of the other fixed texts of a
/// listing.
pub(crate) proof fn lemma_literals()
    ensures
        "ADD"@ =~= seq!['A', 'D', 'D'],
        "ADD_F"@ =~= seq!['A', 'D', 'D', '_', 'F'],
        "SUB"@ =~= seq!['S', 'U', 'B'],
        "SUB_F"@ =~= seq!['S', 'U', 'B', '_', 'F'],
        "MUL"@ =~= seq!['M', 'U', 'L'],
        "MUL_F"@ =~= seq!['M', 'U', 'L', '_', 'F'],
        "DIV"@ =~= seq!['D', 'I', 'V'],
        "DIV_F"@ =~= seq!['D', 'I', 'V', '_', 'F'],
        "DUP"@ =~= seq!['D', 'U', 'P'],
        "CONCAT"@ =~= seq!['C', 'O', 'N', 'C', 'A', 'T'],
        "PRINT"@ =~= seq!['P', 'R', 'I', 'N', 'T'],
        "HALT"@ =~= seq!['H', 'A', 'L', 'T'],
        "RET"@ =~= seq!['R', 'E', 'T'],
        "EQ"@ =~= seq!['E', 'Q'],
        "GT"@ =~= seq!['G', 'T'],
        "LT"@ =~= seq!['L', 'T'],
        "NE"@ =~= seq!['N', 'E'],
        "GE"@ =~= seq!['G', 'E'],
        "LE"@ =~= seq!['L', 'E'],
        "EQ_F"@ =~= seq!['E', 'Q', '_', 'F'],
        "GT_F"@ =~= seq!['G', 'T', '_', 'F'],
        "LT_F"@ =~= seq!['L', 'T', '_', 'F'],
        "NE_F"@ =~= seq!['N', 'E', '_', 'F'],
        "GE_F"@ =~= seq!['G', 'E', '_', 'F'],
        "LE_F"@ =~= seq!['L', 'E', '_', 'F'],
        "TRUE"@ =~= seq!['T', 'R', 'U', 'E'],
        "FALSE"@ =~= seq!['F', 'A', 'L', 'S', 'E'],
        "NOT"@ =~= seq!['N', 'O', 'T'],
        "AND"@ =~= seq!['A', 'N', 'D'],
        "OR"@ =~= seq!['O', 'R'],
        "NULL"@ =~= seq!['N', 'U', 'L', 'L'],
        "LEN"@ =~= seq!['L', 'E', 'N'],
        "INDEX"@ =~= seq!['I', 'N', 'D', 'E', 'X'],
        "DUMP_SCOPE"@ =~= seq!['D', 'U', 'M', 'P', '_', 'S', 'C', 'O', 'P', 'E'],
        "MAKE_OBJECT"@ =~= seq!['M', 'A', 'K', 'E', '_', 'O', 'B', 'J', 'E', 'C', 'T'],
        "KEYS"@ =~= seq!['K', 'E', 'Y', 'S'],
        "CALL_FUNCTION"@ =~= seq!['C', 'A', 'L', 'L', '_', 'F', 'U', 'N', 'C', 'T', 'I', 'O', 'N'],
        "CATCH"@ =~= seq!['C', 'A', 'T', 'C', 'H'],
        "THROW"@ =~= seq!['T', 'H', 'R', 'O', 'W'],
        "END_TRY"@ =~= seq!['E', 'N', 'D', '_', 'T', 'R', 'Y'],
        "READ_FILE"@ =~= seq!['R', 'E', 'A', 'D', '_', 'F', 'I', 'L', 'E'],
        "WRITE_FILE"@ =~= seq!['W', 'R', 'I', 'T', 'E', '_', 'F', 'I', 'L', 'E'],
        "READ_LINE"@ =~= seq!['R', 'E', 'A', 'D', '_', 'L', 'I', 'N', 'E'],
        "READ_CHAR"@ =~= seq!['R', 'E', 'A', 'D', '_', 'C', 'H', 'A', 'R'],
        "READ_INPUT"@ =~= seq!['R', 'E', 'A', 'D', '_', 'I', 'N', 'P', 'U', 'T'],
        "APPEND_FILE"@ =~= seq!['A', 'P', 'P', 'E', 'N', 'D', '_', 'F', 'I', 'L', 'E'],
        "FILE_EXISTS"@ =~= seq!['F', 'I', 'L', 'E', '_', 'E', 'X', 'I', 'S', 'T', 'S'],
        "FILE_SIZE"@ =~= seq!['F', 'I', 'L', 'E', '_', 'S', 'I', 'Z', 'E'],
        "DELETE_FILE"@ =~= seq!['D', 'E', 'L', 'E', 'T', 'E', '_', 'F', 'I', 'L', 'E'],
        "LIST_DIR"@ =~= seq!['L', 'I', 'S', 'T', '_', 'D', 'I', 'R'],
        "READ_BYTES"@ =~= seq!['R', 'E', 'A', 'D', '_', 'B', 'Y', 'T', 'E', 'S'],
        "WRITE_BYTES"@ =~= seq!['W', 'R', 'I', 'T', 'E', '_', 'B', 'Y', 'T', 'E', 'S'],
        "GET_ENV"@ =~= seq!['G', 'E', 'T', '_', 'E', 'N', 'V'],
        "SET_ENV"@ =~= seq!['S', 'E', 'T', '_', 'E', 'N', 'V'],
        "GET_ARGS"@ =~= seq!['G', 'E', 'T', '_', 'A', 'R', 'G', 'S'],
        "EXEC"@ =~= seq!['E', 'X', 'E', 'C'],
        "EXEC_CAPTURE"@ =~= seq!['E', 'X', 'E', 'C', '_', 'C', 'A', 'P', 'T', 'U', 'R', 'E'],
        "EXIT"@ =~= seq!['E', 'X', 'I', 'T'],
        "GET_TIME"@ =~= seq!['G', 'E', 'T', '_', 'T', 'I', 'M', 'E'],
        "SLEEP"@ =~= seq!['S', 'L', 'E', 'E', 'P'],
        "FORMAT_TIME"@ =~= seq!['F', 'O', 'R', 'M', 'A', 'T', '_', 'T', 'I', 'M', 'E'],
        "HTTP_GET"@ =~= seq!['H', 'T', 'T', 'P', '_', 'G', 'E', 'T'],
        "HTTP_POST"@ =~= seq!['H', 'T', 'T', 'P', '_', 'P', 'O', 'S', 'T'],
        "TCP_CONNECT"@ =~= seq!['T', 'C', 'P', '_', 'C', 'O', 'N', 'N', 'E', 'C', 'T'],
        "TCP_LISTEN"@ =~= seq!['T', 'C', 'P', '_', 'L', 'I', 'S', 'T', 'E', 'N'],
        "TCP_SEND"@ =~= seq!['T', 'C', 'P', '_', 'S', 'E', 'N', 'D'],
        "TCP_RECV"@ =~= seq!['T', 'C', 'P', '_', 'R', 'E', 'C', 'V'],
        "UDP_BIND"@ =~= seq!['U', 'D', 'P', '_', 'B', 'I', 'N', 'D'],
        "UDP_SEND"@ =~= seq!['U', 'D', 'P', '_', 'S', 'E', 'N', 'D'],
        "UDP_RECV"@ =~= seq!['U', 'D', 'P', '_', 'R', 'E', 'C', 'V'],
        "DNS_RESOLVE"@ =~= seq!['D', 'N', 'S', '_', 'R', 'E', 'S', 'O', 'L', 'V', 'E'],
        "ASYNC_READ"@ =~= seq!['A', 'S', 'Y', 'N', 'C', '_', 'R', 'E', 'A', 'D'],
        "ASYNC_WRITE"@ =~= seq!['A', 'S', 'Y', 'N', 'C', '_', 'W', 'R', 'I', 'T', 'E'],
        "AWAIT"@ =~= seq!['A', 'W', 'A', 'I', 'T'],
        "STREAM_CREATE"@ =~= seq!['S', 'T', 'R', 'E', 'A', 'M', '_', 'C', 'R', 'E', 'A', 'T', 'E'],
        "STREAM_READ"@ =~= seq!['S', 'T', 'R', 'E', 'A', 'M', '_', 'R', 'E', 'A', 'D'],
        "STREAM_WRITE"@ =~= seq!['S', 'T', 'R', 'E', 'A', 'M', '_', 'W', 'R', 'I', 'T', 'E'],
        "STREAM_CLOSE"@ =~= seq!['S', 'T', 'R', 'E', 'A', 'M', '_', 'C', 'L', 'O', 'S', 'E'],
        "JSON_PARSE"@ =~= seq!['J', 'S', 'O', 'N', '_', 'P', 'A', 'R', 'S', 'E'],
        "JSON_STRINGIFY"@ =~= seq!['J', 'S', 'O', 'N', '_', 'S', 'T', 'R', 'I', 'N', 'G', 'I', 'F', 'Y'],
        "CSV_PARSE"@ =~= seq!['C', 'S', 'V', '_', 'P', 'A', 'R', 'S', 'E'],
        "CSV_WRITE"@ =~= seq!['C', 'S', 'V', '_', 'W', 'R', 'I', 'T', 'E'],
        "COMPRESS"@ =~= seq!['C', 'O', 'M', 'P', 'R', 'E', 'S', 'S'],
        "DECOMPRESS"@ =~= seq!['D', 'E', 'C', 'O', 'M', 'P', 'R', 'E', 'S', 'S'],
        "ENCRYPT"@ =~= seq!['E', 'N', 'C', 'R', 'Y', 'P', 'T'],
        "DECRYPT"@ =~= seq!['D', 'E', 'C', 'R', 'Y', 'P', 'T'],
        "HASH"@ =~= seq!['H', 'A', 'S', 'H'],
        "DB_CONNECT"@ =~= seq!['D', 'B', '_', 'C', 'O', 'N', 'N', 'E', 'C', 'T'],
        "DB_QUERY"@ =~= seq!['D', 'B', '_', 'Q', 'U', 'E', 'R', 'Y'],
        "DB_EXEC"@ =~= seq!['D', 'B', '_', 'E', 'X', 'E', 'C'],
        "YIELD"@ =~= seq!['Y', 'I', 'E', 'L', 'D'],
        "RECEIVE"@ =~= seq!['R', 'E', 'C', 'E', 'I', 'V', 'E'],
        "SPAWN"@ =~= seq!['S', 'P', 'A', 'W', 'N'],
        "TRAP_EXIT"@ =~= seq!['T', 'R', 'A', 'P', '_', 'E', 'X', 'I', 'T'],
        "START_SUPERVISOR"@ =~= seq!['S', 'T', 'A', 'R', 'T', '_', 'S', 'U', 'P', 'E', 'R', 'V', 'I', 'S', 'O', 'R'],
        "PUSH_INT"@ =~= seq!['P', 'U', 'S', 'H', '_', 'I', 'N', 'T'],
        "PUSH_FLOAT"@ =~= seq!['P', 'U', 'S', 'H', '_', 'F', 'L', 'O', 'A', 'T'],
        "PUSH_BOOL"@ =~= seq!['P', 'U', 'S', 'H', '_', 'B', 'O', 'O', 'L'],
        "CALL"@ =~= seq!['C', 'A', 'L', 'L'],
        "MAKE_FUNCTION"@ =~= seq!['M', 'A', 'K', 'E', '_', 'F', 'U', 'N', 'C', 'T', 'I', 'O', 'N'],
        "MAKE_LAMBDA"@ =~= seq!['M', 'A', 'K', 'E', '_', 'L', 'A', 'M', 'B', 'D', 'A'],
        "JMP"@ =~= seq!['J', 'M', 'P'],
        "JZ"@ =~= seq!['J', 'Z'],
        "TRY"@ =~= seq!['T', 'R', 'Y'],
        "MAKE_LIST"@ =~= seq!['M', 'A', 'K', 'E', '_', 'L', 'I', 'S', 'T'],
        "IMPORT"@ =~= seq!['I', 'M', 'P', 'O', 'R', 'T'],
        "SEND"@ =~= seq!['S', 'E', 'N', 'D'],
        "LINK"@ =~= seq!['L', 'I', 'N', 'K'],
        "UNLINK"@ =~= seq!['U', 'N', 'L', 'I', 'N', 'K'],
        "MONITOR"@ =~= seq!['M', 'O', 'N', 'I', 'T', 'O', 'R'],
        "STORE"@ =~= seq!['S', 'T', 'O', 'R', 'E'],
        "DELETE"@ =~= seq!['D', 'E', 'L', 'E', 'T', 'E'],
        "LOAD"@ =~= seq!['L', 'O', 'A', 'D'],
        "SET_FIELD"@ =~= seq!['S', 'E', 'T', '_', 'F', 'I', 'E', 'L', 'D'],
        "GET_FIELD"@ =~= seq!['G', 'E', 'T', '_', 'F', 'I', 'E', 'L', 'D'],
        "HAS_FIELD"@ =~= seq!['H', 'A', 'S', '_', 'F', 'I', 'E', 'L', 'D'],
        "DELETE_FIELD"@ =~= seq!['D', 'E', 'L', 'E', 'T', 'E', '_', 'F', 'I', 'E', 'L', 'D'],
        "CAPTURE"@ =~= seq!['C', 'A', 'P', 'T', 'U', 'R', 'E'],
        "EXPORT"@ =~= seq!['E', 'X', 'P', 'O', 'R', 'T'],
        "PUSH_STR"@ =~= seq!['P', 'U', 'S', 'H', '_', 'S', 'T', 'R'],
        "REGISTER"@ =~= seq!['R', 'E', 'G', 'I', 'S', 'T', 'E', 'R'],
        "WHEREIS"@ =~= seq!['W', 'H', 'E', 'R', 'E', 'I', 'S'],
        "SENDNAMED"@ =~= seq!['S', 'E', 'N', 'D', 'N', 'A', 'M', 'E', 'D'],
        "UNREGISTER"@ =~= seq!['U', 'N', 'R', 'E', 'G', 'I', 'S', 'T', 'E', 'R'],
        "SUPERVISE_CHILD"@ =~= seq!['S', 'U', 'P', 'E', 'R', 'V', 'I', 'S', 'E', '_', 'C', 'H', 'I', 'L', 'D'],
        "RESTART_CHILD"@ =~= seq!['R', 'E', 'S', 'T', 'A', 'R', 'T', '_', 'C', 'H', 'I', 'L', 'D'],
        "DEMONITOR"@ =~= seq!['D', 'E', 'M', 'O', 'N', 'I', 'T', 'O', 'R'],
        "true"@ =~= seq!['t', 'r', 'u', 'e'],
        "false"@ =~= seq!['f', 'a', 'l', 's', 'e'],
        "PUSH_INT "@ =~= seq!['P', 'U', 'S', 'H', '_', 'I', 'N', 'T', ' '],
        "JMP "@ =~= seq!['J', 'M', 'P', ' '],
        "JZ "@ =~= seq!['J', 'Z', ' '],
        "MAKE_LIST "@ =~= seq!['M', 'A', 'K', 'E', '_', 'L', 'I', 'S', 'T', ' '],
        "SEND "@ =~= seq!['S', 'E', 'N', 'D', ' '],
        "MONITOR "@ =~= seq!['M', 'O', 'N', 'I', 'T', 'O', 'R', ' '],
        "LINK "@ =~= seq!['L', 'I', 'N', 'K', ' '],
        "UNLINK "@ =~= seq!['U', 'N', 'L', 'I', 'N', 'K', ' '],
        "STORE "@ =~= seq!['S', 'T', 'O', 'R', 'E', ' '],
        "LOAD "@ =~= seq!['L', 'O', 'A', 'D', ' '],
        "DELETE "@ =~= seq!['D', 'E', 'L', 'E', 'T', 'E', ' '],
        "SET_FIELD "@ =~= seq!['S', 'E', 'T', '_', 'F', 'I', 'E', 'L', 'D', ' '],
        "GET_FIELD "@ =~= seq!['G', 'E', 'T', '_', 'F', 'I', 'E', 'L', 'D', ' '],
        "HAS_FIELD "@ =~= seq!['H', 'A', 'S', '_', 'F', 'I', 'E', 'L', 'D', ' '],
        "DELETE_FIELD "@ =~= seq!['D', 'E', 'L', 'E', 'T', 'E', '_', 'F', 'I', 'E', 'L', 'D', ' '],
        "CAPTURE "@ =~= seq!['C', 'A', 'P', 'T', 'U', 'R', 'E', ' '],
        "IMPORT "@ =~= seq!['I', 'M', 'P', 'O', 'R', 'T', ' '],
        "EXPORT "@ =~= seq!['E', 'X', 'P', 'O', 'R', 'T', ' '],
        "DEMONITOR "@ =~= seq!['D', 'E', 'M', 'O', 'N', 'I', 'T', 'O', 'R', ' '],
        "REGISTER "@ =~= seq!['R', 'E', 'G', 'I', 'S', 'T', 'E', 'R', ' '],
        "UNREGISTER "@ =~= seq!['U', 'N', 'R', 'E', 'G', 'I', 'S', 'T', 'E', 'R', ' '],
        "WHEREIS "@ =~= seq!['W', 'H', 'E', 'R', 'E', 'I', 'S', ' '],
        "SENDNAMED "@ =~= seq!['S', 'E', 'N', 'D', 'N', 'A', 'M', 'E', 'D', ' '],
        "SUPERVISE_CHILD "@ =~= seq!['S', 'U', 'P', 'E', 'R', 'V', 'I', 'S', 'E', '_', 'C', 'H', 'I', 'L', 'D', ' '],
        "RESTART_CHILD "@ =~= seq!['R', 'E', 'S', 'T', 'A', 'R', 'T', '_', 'C', 'H', 'I', 'L', 'D', ' '],
        "PUSH_BOOL "@ =~= seq!['P', 'U', 'S', 'H', '_', 'B', 'O', 'O', 'L', ' '],
        "PUSH_STR \""@ =~= seq!['P', 'U', 'S', 'H', '_', 'S', 'T', 'R', ' ', '"'],
        "\""@ =~= seq!['"'],
        "LABEL "@ =~= seq!['L', 'A', 'B', 'E', 'L', ' '],
{
    reveal_strlit("ADD");
    reveal_strlit("ADD_F");
    reveal_strlit("SUB");
    reveal_strlit("SUB_F");
    reveal_strlit("MUL");
    reveal_strlit("MUL_F");
    reveal_strlit("DIV");
    reveal_strlit("DIV_F");
    reveal_strlit("DUP");
    reveal_strlit("CONCAT");
    reveal_strlit("PRINT");
    reveal_strlit("HALT");
    reveal_strlit("RET");
    reveal_strlit("EQ");
    reveal_strlit("GT");
    reveal_strlit("LT");
    reveal_strlit("NE");
    reveal_strlit("GE");
    reveal_strlit("LE");
    reveal_strlit("EQ_F");
    reveal_strlit("GT_F");
    reveal_strlit("LT_F");
    reveal_strlit("NE_F");
    reveal_strlit("GE_F");
    reveal_strlit("LE_F");
    reveal_strlit("TRUE");
    reveal_strlit("FALSE");
    reveal_strlit("NOT");
    reveal_strlit("AND");
    reveal_strlit("OR");
    reveal_strlit("NULL");
    reveal_strlit("LEN");
    reveal_strlit("INDEX");
    reveal_strlit("DUMP_SCOPE");
    reveal_strlit("MAKE_OBJECT");
    reveal_strlit("KEYS");
    reveal_strlit("CALL_FUNCTION");
    reveal_strlit("CATCH");
    reveal_strlit("THROW");
    reveal_strlit("END_TRY");
    reveal_strlit("READ_FILE");
    reveal_strlit("WRITE_FILE");
    reveal_strlit("READ_LINE");
    reveal_strlit("READ_CHAR");
    reveal_strlit("READ_INPUT");
    reveal_strlit("APPEND_FILE");
    reveal_strlit("FILE_EXISTS");
    reveal_strlit("FILE_SIZE");
    reveal_strlit("DELETE_FILE");
    reveal_strlit("LIST_DIR");
    reveal_strlit("READ_BYTES");
    reveal_strlit("WRITE_BYTES");
    reveal_strlit("GET_ENV");
    reveal_strlit("SET_ENV");
    reveal_strlit("GET_ARGS");
    reveal_strlit("EXEC");
    reveal_strlit("EXEC_CAPTURE");
    reveal_strlit("EXIT");
    reveal_strlit("GET_TIME");
    reveal_strlit("SLEEP");
    reveal_strlit("FORMAT_TIME");
    reveal_strlit("HTTP_GET");
    reveal_strlit("HTTP_POST");
    reveal_strlit("TCP_CONNECT");
    reveal_strlit("TCP_LISTEN");
    reveal_strlit("TCP_SEND");
    reveal_strlit("TCP_RECV");
    reveal_strlit("UDP_BIND");
    reveal_strlit("UDP_SEND");
    reveal_strlit("UDP_RECV");
    reveal_strlit("DNS_RESOLVE");
    reveal_strlit("ASYNC_READ");
    reveal_strlit("ASYNC_WRITE");
    reveal_strlit("AWAIT");
    reveal_strlit("STREAM_CREATE");
    reveal_strlit("STREAM_READ");
    reveal_strlit("STREAM_WRITE");
    reveal_strlit("STREAM_CLOSE");
    reveal_strlit("JSON_PARSE");
    reveal_strlit("JSON_STRINGIFY");
    reveal_strlit("CSV_PARSE");
    reveal_strlit("CSV_WRITE");
    reveal_strlit("COMPRESS");
    reveal_strlit("DECOMPRESS");
    reveal_strlit("ENCRYPT");
    reveal_strlit("DECRYPT");
    reveal_strlit("HASH");
    reveal_strlit("DB_CONNECT");
    reveal_strlit("DB_QUERY");
    reveal_strlit("DB_EXEC");
    reveal_strlit("YIELD");
    reveal_strlit("RECEIVE");
    reveal_strlit("SPAWN");
    reveal_strlit("TRAP_EXIT");
    reveal_strlit("START_SUPERVISOR");
    reveal_strlit("PUSH_INT");
    reveal_strlit("PUSH_FLOAT");
    reveal_strlit("PUSH_BOOL");
    reveal_strlit("CALL");
    reveal_strlit("MAKE_FUNCTION");
    reveal_strlit("MAKE_LAMBDA");
    reveal_strlit("JMP");
    reveal_strlit("JZ");
    reveal_strlit("TRY");
    reveal_strlit("MAKE_LIST");
    reveal_strlit("IMPORT");
    reveal_strlit("SEND");
    reveal_strlit("LINK");
    reveal_strlit("UNLINK");
    reveal_strlit("MONITOR");
    reveal_strlit("STORE");
    reveal_strlit("DELETE");
    reveal_strlit("LOAD");
    reveal_strlit("SET_FIELD");
    reveal_strlit("GET_FIELD");
    reveal_strlit("HAS_FIELD");
    reveal_strlit("DELETE_FIELD");
    reveal_strlit("CAPTURE");
    reveal_strlit("EXPORT");
    reveal_strlit("PUSH_STR");
    reveal_strlit("REGISTER");
    reveal_strlit("WHEREIS");
    reveal_strlit("SENDNAMED");
    reveal_strlit("UNREGISTER");
    reveal_strlit("SUPERVISE_CHILD");
    reveal_strlit("RESTART_CHILD");
    reveal_strlit("DEMONITOR");
    reveal_strlit("true");
    reveal_strlit("false");
    reveal_strlit("PUSH_INT ");
    reveal_strlit("JMP ");
    reveal_strlit("JZ ");
    reveal_strlit("MAKE_LIST ");
    reveal_strlit("SEND ");
    reveal_strlit("MONITOR ");
    reveal_strlit("LINK ");
    reveal_strlit("UNLINK ");
    reveal_strlit("STORE ");
    reveal_strlit("LOAD ");
    reveal_strlit("DELETE ");
    reveal_strlit("SET_FIELD ");
    reveal_strlit("GET_FIELD ");
    reveal_strlit("HAS_FIELD ");
    reveal_strlit("DELETE_FIELD ");
    reveal_strlit("CAPTURE ");
    reveal_strlit("IMPORT ");
    reveal_strlit("EXPORT ");
    reveal_strlit("DEMONITOR ");
    reveal_strlit("REGISTER ");
    reveal_strlit("UNREGISTER ");
    reveal_strlit("WHEREIS ");
    reveal_strlit("SENDNAMED ");
    reveal_strlit("SUPERVISE_CHILD ");
    reveal_strlit("RESTART_CHILD ");
    reveal_strlit("PUSH_BOOL ");
    reveal_strlit("PUSH_STR \"");
    reveal_strlit("\"");
    reveal_strlit("LABEL ");
}

proof fn lemma_clean_line_keeps(t: Seq<char>)
    requires
        t.len() > 0,
        !t.contains(';'),
        !is_ws(t[0]),
        !is_ws(t.last()),
    ensures
        clean_line(t) == t,
{
    lemma_before_all(t, ';', t.len() as int);
    assert(t.take(t.len() as int) =~= t);
}

proof fn lemma_before_all(s: Seq<char>, c: char, i: int)
    requires
        0 <= i <= s.len(),
        !s.contains(c),
    ensures
        before_char(s.skip(s.len() - i), c) == s.skip(s.len() - i),
    decreases i,
{
    let t = s.skip(s.len() - i);
    if i > 0 {
        assert(t[0] == s[s.len() - i]);
        assert(t.drop_first() =~= s.skip(s.len() - (i - 1)));
        lemma_before_all(s, c, i - 1);
        assert(seq![t[0]] + t.drop_first() =~= t);
    }
}

/// Reading the characters of a line (none of them a line break) after a
/// finished line: they make up the line being read.
proof fn lemma_split_partial(a: Seq<char>, l: Seq<char>, k: int)
    requires
        split_state(a).current.len() == 0,
        0 <= k <= l.len(),
        !l.contains('\n'),
    ensures
        split_state(a + l.take(k)) == (LineSplit { done: split_state(a).done, current: l.take(k) }),
    decreases k,
{
    if k == 0 {
        assert(a + l.take(0) =~= a);
        assert(split_state(a).current =~= l.take(0));
    } else {
        lemma_split_partial(a, l, k - 1);
        let s = a + l.take(k);
        assert(s.drop_last() =~= a + l.take(k - 1));
        assert(s.last() == l[k - 1]);
        assert(l.take(k - 1).push(l[k - 1]) =~= l.take(k));
    }
}

/// A line and its line break, after finished lines, finish one more line.
proof fn lemma_split_line(a: Seq<char>, l: Seq<char>)
    requires
        split_state(a).current.len() == 0,
        !l.contains('\n'),
        l.len() > 0,
        !is_ws(l.last()),
    ensures
        split_state(a + l + seq!['\n']) == (LineSplit { done: split_state(a).done.push(l), current: Seq::empty() }),
{
    lemma_split_partial(a, l, l.len() as int);
    assert(l.take(l.len() as int) =~= l);
    let s = a + l + seq!['\n'];
    assert(s.drop_last() =~= a + l.take(l.len() as int));
}


proof fn lemma_nat_text_digits(n: nat)
    ensures
        nat_text(n).len() >= 1,
        n >= 10 ==> nat_text(n).len() >= 2,
        forall|i: int| 0 <= i < nat_text(n).len() ==> is_digit(#[trigger] nat_text(n)[i]),
    decreases n,
{
    if n >= 10 {
        lemma_nat_text_digits(n / 10);
        let t = nat_text(n / 10);
        assert forall|i: int| 0 <= i < nat_text(n).len() implies is_digit(#[trigger] nat_text(n)[i]) by {
            if i < t.len() {
                assert(nat_text(n)[i] == t[i]);
            }
        }
    }
}

proof fn lemma_nat_text_injective(a: nat, b: nat)
    requires
        nat_text(a) == nat_text(b),
    ensures
        a == b,
    decreases a,
{
    lemma_nat_text_digits(a);
    lemma_nat_text_digits(b);
    if a >= 10 && b >= 10 {
        assert(nat_text(a).drop_last() == nat_text(a / 10));
        assert(nat_text(b).drop_last() == nat_text(b / 10));
        lemma_nat_text_injective(a / 10, b / 10);
        assert(digit_char(a % 10) == nat_text(a).last());
        assert(digit_char(b % 10) == nat_text(b).last());
    } else if a < 10 && b < 10 {
        assert(nat_text(a)[0] == digit_char(a));
        assert(nat_text(b)[0] == digit_char(b));
    }
}

proof fn lemma_catch_label_injective(a: nat, b: nat)
    requires
        catch_label(a) == catch_label(b),
    ensures
        a == b,
{
    let k = "catch_"@.len() as int;
    assert(catch_label(a).skip(k) =~= nat_text(a));
    assert(catch_label(b).skip(k) =~= nat_text(b));
    lemma_nat_text_injective(a, b);
}

/// The text of the label line of address `a`, without its line break.
pub open spec fn label_text(a: nat) -> Seq<char> {
    "LABEL "@ + catch_label(a)
}

proof fn lemma_label_text(a: nat)
    ensures
        label_text(a).len() > 6,
        !label_text(a).contains('\n'),
        !label_text(a).contains(';'),
        !is_ws(label_text(a)[0]),
        !is_ws(label_text(a).last()),
        starts_with(label_text(a), "LABEL "@),
        trim(label_text(a).skip(6)) == catch_label(a),
        clean_line(label_text(a)) == label_text(a),
{
    reveal_strlit("LABEL ");
    reveal_strlit("catch_");
    lemma_nat_text_digits(a);
    let t = label_text(a);
    let d = nat_text(a);
    assert forall|i: int| 0 <= i < t.len() implies t[i] != '\n' && t[i] != ';' by {
        if i >= 12 {
            assert(t[i] == d[i - 12]);
        }
    }
    assert(t.last() == d[d.len() - 1]);
    assert(t.take(6) =~= "LABEL "@);
    assert(t.skip(6) =~= catch_label(a));
    let c = catch_label(a);
    assert(c.last() == d[d.len() - 1]);
    lemma_clean_line_keeps(t);
}


/// The labels of a listing of `p` up to address `n` (exclusive): one for
/// each address below `n` where a `TRY` of `p` has its handler, in order.
pub open spec fn catch_labels(p: Seq<OpCodeModel>, n: int) -> Seq<(Seq<char>, usize)>
    decreases n,
{
    if n <= 0 {
        Seq::empty()
    } else if is_catch_target(p, n - 1) {
        catch_labels(p, n - 1).push((catch_label((n - 1) as nat), (n - 1) as usize))
    } else {
        catch_labels(p, n - 1)
    }
}

/// A label line after finished lines.
proof fn lemma_scan_label(x: Seq<char>, p: Seq<OpCodeModel>, a: int)
    requires
        split_state(x).current.len() == 0,
        0 <= a,
        is_catch_target(p, a),
    ensures
        split_state(x + label_line(p, a)) == (LineSplit {
            done: split_state(x).done.push(label_text(a as nat)),
            current: Seq::empty(),
        }),
        scan_lines(split_state(x + label_line(p, a)).done) == (AsmScan {
            labels: scan_lines(split_state(x).done).labels.push(
                (catch_label(a as nat), scan_lines(split_state(x).done).instrs.len() as usize),
            ),
            instrs: scan_lines(split_state(x).done).instrs,
        }),
{
    lemma_label_text(a as nat);
    let lt = label_text(a as nat);
    assert(x + label_line(p, a) =~= x + lt + seq!['\n']);
    lemma_split_line(x, lt);
    let ls = split_state(x).done.push(lt);
    assert(ls.drop_last() =~= split_state(x).done);
}

/// An instruction line after finished lines.
proof fn lemma_scan_instr(x: Seq<char>, t: Seq<char>)
    requires
        split_state(x).current.len() == 0,
        clean_text(t),
    ensures
        split_state(x + t + seq!['\n']) == (LineSplit { done: split_state(x).done.push(t), current: Seq::empty() }),
        scan_lines(split_state(x + t + seq!['\n']).done) == (AsmScan {
            labels: scan_lines(split_state(x).done).labels,
            instrs: scan_lines(split_state(x).done).instrs.push(
                ((split_state(x).done.len() + 1) as int, t),
            ),
        }),
{
    lemma_clean_line_keeps(t);
    lemma_split_line(x, t);
    let ls = split_state(x).done.push(t);
    assert(ls.drop_last() =~= split_state(x).done);
}

/// The first pass over the first `n` instructions of a listing.
proof fn lemma_scan_prefix(p: Seq<OpCodeModel>, n: int, ft: spec_fn(u64) -> Seq<char>)
    requires
        0 <= n <= p.len(),
        forall|i: int| 0 <= i < p.len() ==> clean_text(#[trigger] instruction_text(p[i], ft)),
    ensures
        split_state(listing_prefix(p, n, ft)).current.len() == 0,
        scan_lines(split_state(listing_prefix(p, n, ft)).done).labels == catch_labels(p, n),
        scan_lines(split_state(listing_prefix(p, n, ft)).done).instrs.len() == n,
        forall|i: int|
            0 <= i < n ==> #[trigger] scan_lines(split_state(listing_prefix(p, n, ft)).done).instrs[i].1
                == instruction_text(p[i], ft),
    decreases n,
{
    if n > 0 {
        lemma_scan_prefix(p, n - 1, ft);
        let x = listing_prefix(p, n - 1, ft);
        let y = x + label_line(p, n - 1);
        let t = instruction_text(p[n - 1], ft);
        assert(clean_text(t));
        if is_catch_target(p, n - 1) {
            lemma_scan_label(x, p, n - 1);
        } else {
            assert(y =~= x);
        }
        lemma_scan_instr(y, t);
        assert(listing_prefix(p, n, ft) == y + t + seq!['\n']);
        let before = scan_lines(split_state(x).done).instrs;
        let after = scan_lines(split_state(listing_prefix(p, n, ft)).done).instrs;
        assert forall|i: int| 0 <= i < n implies #[trigger] after[i].1 == instruction_text(p[i], ft) by {
            if i < n - 1 {
                assert(after[i] == before[i]);
            }
        }
    } else {
        assert(split_state(listing_prefix(p, 0, ft)) == split_state(Seq::<char>::empty()));
    }
}

/// Where the label names of a listing lead.
proof fn lemma_catch_lookup(p: Seq<OpCodeModel>, n: int, a: int)
    requires
        0 <= a,
    ensures
        lookup_label(catch_labels(p, n), catch_label(a as nat)) == (if a < n && is_catch_target(p, a) {
            Some(a as usize)
        } else {
            None
        }),
    decreases n,
{
    if n > 0 {
        lemma_catch_lookup(p, n - 1, a);
        if is_catch_target(p, n - 1) {
            let s = catch_labels(p, n);
            assert(s.drop_last() == catch_labels(p, n - 1));
            if catch_label((n - 1) as nat) == catch_label(a as nat) {
                lemma_catch_label_injective((n - 1) as nat, a as nat);
            }
        }
    }
}

/// The first pass over a whole listing.
proof fn lemma_listing_scan(p: Seq<OpCodeModel>, ft: spec_fn(u64) -> Seq<char>)
    requires
        forall|i: int| 0 <= i < p.len() ==> clean_text(#[trigger] instruction_text(p[i], ft)),
    ensures
        scan_lines(lines(program_text(p, ft))).instrs.len() == p.len(),
        forall|i: int|
            0 <= i < p.len() ==> #[trigger] scan_lines(lines(program_text(p, ft))).instrs[i].1 == instruction_text(
                p[i],
                ft,
            ),
        scan_lines(lines(program_text(p, ft))).labels == catch_labels(p, p.len() + 1int),
{
    let n = p.len() as int;
    lemma_scan_prefix(p, n, ft);
    let x = listing_prefix(p, n, ft);
    if is_catch_target(p, n) {
        lemma_scan_label(x, p, n);
    } else {
        assert(program_text(p, ft) =~= x);
    }
}

/// The assembler's first pass over a listing whose instruction lines are
/// clean finds those lines in order, and for each address where a `TRY` of
/// the program has its handler (the address just past the end included) a
/// label that leads there, under the name the `TRY` line gives.
pub proof fn law_listing_scans_back(p: Seq<OpCodeModel>, ft: spec_fn(u64) -> Seq<char>, a: int)
    requires
        forall|i: int| 0 <= i < p.len() ==> clean_text(#[trigger] instruction_text(p[i], ft)),
        0 <= a <= p.len(),
        is_catch_target(p, a),
    ensures
        scan_lines(lines(program_text(p, ft))).instrs.len() == p.len(),
        forall|i: int|
            0 <= i < p.len() ==> #[trigger] scan_lines(lines(program_text(p, ft))).instrs[i].1 == instruction_text(
                p[i],
                ft,
            ),
        lookup_label(scan_lines(lines(program_text(p, ft))).labels, catch_label(a as nat)) == Some(a as usize),
{
    lemma_listing_scan(p, ft);
    lemma_catch_lookup(p, p.len() + 1int, a);
}

/// Whether an instruction takes no operand.
pub open spec fn is_unit_op(op: OpCodeModel) -> bool {
    ||| op is Add
    ||| op is AddF
    ||| op is Sub
    ||| op is SubF
    ||| op is Mul
    ||| op is MulF
    ||| op is Div
    ||| op is DivF
    ||| op is Dup
    ||| op is Concat
    ||| op is Print
    ||| op is Halt
    ||| op is Ret
    ||| op is Eq
    ||| op is Gt
    ||| op is Lt
    ||| op is Ne
    ||| op is Ge
    ||| op is Le
    ||| op is EqF
    ||| op is GtF
    ||| op is LtF
    ||| op is NeF
    ||| op is GeF
    ||| op is LeF
    ||| op is True
    ||| op is False
    ||| op is Not
    ||| op is And
    ||| op is Or
    ||| op is Null
    ||| op is Len
    ||| op is Index
    ||| op is DumpScope
    ||| op is MakeObject
    ||| op is Keys
    ||| op is CallFunction
    ||| op is Catch
    ||| op is Throw
    ||| op is EndTry
    ||| op is ReadFile
    ||| op is WriteFile
    ||| op is ReadLine
    ||| op is ReadChar
    ||| op is ReadInput
    ||| op is AppendFile
    ||| op is FileExists
    ||| op is FileSize
    ||| op is DeleteFile
    ||| op is ListDir
    ||| op is ReadBytes
    ||| op is WriteBytes
    ||| op is GetEnv
    ||| op is SetEnv
    ||| op is GetArgs
    ||| op is Exec
    ||| op is ExecCapture
    ||| op is Exit
    ||| op is GetTime
    ||| op is Sleep
    ||| op is FormatTime
    ||| op is HttpGet
    ||| op is HttpPost
    ||| op is TcpConnect
    ||| op is TcpListen
    ||| op is TcpSend
    ||| op is TcpRecv
    ||| op is UdpBind
    ||| op is UdpSend
    ||| op is UdpRecv
    ||| op is DnsResolve
    ||| op is AsyncRead
    ||| op is AsyncWrite
    ||| op is Await
    ||| op is StreamCreate
    ||| op is StreamRead
    ||| op is StreamWrite
    ||| op is StreamClose
    ||| op is JsonParse
    ||| op is JsonStringify
    ||| op is CsvParse
    ||| op is CsvWrite
    ||| op is Compress
    ||| op is Decompress
    ||| op is Encrypt
    ||| op is Decrypt
    ||| op is Hash
    ||| op is DbConnect
    ||| op is DbQuery
    ||| op is DbExec
    ||| op is Yield
    ||| op is Receive
    ||| op is Spawn
    ||| op is TrapExit
    ||| op is StartSupervisor
}

/// The line of an instruction without operand is its mnemonic, which the
/// assembler reads back as that instruction.
#[verifier::rlimit(100)]
proof fn lemma_unit_line(op: OpCodeModel, ft: spec_fn(u64) -> Seq<char>)
    requires
        is_unit_op(op),
    ensures
        clean_text(instruction_text(op, ft)),
        before_char(instruction_text(op, ft), ' ') == instruction_text(op, ft),
        unit_mnemonic(instruction_text(op, ft)) == Some(op),
{
    reveal_strlit("LABEL ");
    assert("LABEL "@ =~= seq!['L', 'A', 'B', 'E', 'L', ' ']);
    reveal_strlit("ADD");
    reveal_strlit("ADD_F");
    reveal_strlit("SUB");
    reveal_strlit("SUB_F");
    reveal_strlit("MUL");
    reveal_strlit("MUL_F");
    reveal_strlit("DIV");
    reveal_strlit("DIV_F");
    reveal_strlit("DUP");
    reveal_strlit("CONCAT");
    reveal_strlit("PRINT");
    reveal_strlit("HALT");
    reveal_strlit("RET");
    reveal_strlit("EQ");
    reveal_strlit("GT");
    reveal_strlit("LT");
    reveal_strlit("NE");
    reveal_strlit("GE");
    reveal_strlit("LE");
    reveal_strlit("EQ_F");
    reveal_strlit("GT_F");
    reveal_strlit("LT_F");
    reveal_strlit("NE_F");
    reveal_strlit("GE_F");
    reveal_strlit("LE_F");
    reveal_strlit("TRUE");
    reveal_strlit("FALSE");
    reveal_strlit("NOT");
    reveal_strlit("AND");
    reveal_strlit("OR");
    reveal_strlit("NULL");
    reveal_strlit("LEN");
    reveal_strlit("INDEX");
    reveal_strlit("DUMP_SCOPE");
    reveal_strlit("MAKE_OBJECT");
    reveal_strlit("KEYS");
    reveal_strlit("CALL_FUNCTION");
    reveal_strlit("CATCH");
    reveal_strlit("THROW");
    reveal_strlit("END_TRY");
    reveal_strlit("READ_FILE");
    reveal_strlit("WRITE_FILE");
    reveal_strlit("READ_LINE");
    reveal_strlit("READ_CHAR");
    reveal_strlit("READ_INPUT");
    reveal_strlit("APPEND_FILE");
    reveal_strlit("FILE_EXISTS");
    reveal_strlit("FILE_SIZE");
    reveal_strlit("DELETE_FILE");
    reveal_strlit("LIST_DIR");
    reveal_strlit("READ_BYTES");
    reveal_strlit("WRITE_BYTES");
    reveal_strlit("GET_ENV");
    reveal_strlit("SET_ENV");
    reveal_strlit("GET_ARGS");
    reveal_strlit("EXEC");
    reveal_strlit("EXEC_CAPTURE");
    reveal_strlit("EXIT");
    reveal_strlit("GET_TIME");
    reveal_strlit("SLEEP");
    reveal_strlit("FORMAT_TIME");
    reveal_strlit("HTTP_GET");
    reveal_strlit("HTTP_POST");
    reveal_strlit("TCP_CONNECT");
    reveal_strlit("TCP_LISTEN");
    reveal_strlit("TCP_SEND");
    reveal_strlit("TCP_RECV");
    reveal_strlit("UDP_BIND");
    reveal_strlit("UDP_SEND");
    reveal_strlit("UDP_RECV");
    reveal_strlit("DNS_RESOLVE");
    reveal_strlit("ASYNC_READ");
    reveal_strlit("ASYNC_WRITE");
    reveal_strlit("AWAIT");
    reveal_strlit("STREAM_CREATE");
    reveal_strlit("STREAM_READ");
    reveal_strlit("STREAM_WRITE");
    reveal_strlit("STREAM_CLOSE");
    reveal_strlit("JSON_PARSE");
    reveal_strlit("JSON_STRINGIFY");
    reveal_strlit("CSV_PARSE");
    reveal_strlit("CSV_WRITE");
    reveal_strlit("COMPRESS");
    reveal_strlit("DECOMPRESS");
    reveal_strlit("ENCRYPT");
    reveal_strlit("DECRYPT");
    reveal_strlit("HASH");
    reveal_strlit("DB_CONNECT");
    reveal_strlit("DB_QUERY");
    reveal_strlit("DB_EXEC");
    reveal_strlit("YIELD");
    reveal_strlit("RECEIVE");
    reveal_strlit("SPAWN");
    reveal_strlit("TRAP_EXIT");
    reveal_strlit("START_SUPERVISOR");
    assert("ADD"@ =~= seq!['A', 'D', 'D']);
    assert("ADD_F"@ =~= seq!['A', 'D', 'D', '_', 'F']);
    assert("SUB"@ =~= seq!['S', 'U', 'B']);
    assert("SUB_F"@ =~= seq!['S', 'U', 'B', '_', 'F']);
    assert("MUL"@ =~= seq!['M', 'U', 'L']);
    assert("MUL_F"@ =~= seq!['M', 'U', 'L', '_', 'F']);
    assert("DIV"@ =~= seq!['D', 'I', 'V']);
    assert("DIV_F"@ =~= seq!['D', 'I', 'V', '_', 'F']);
    assert("DUP"@ =~= seq!['D', 'U', 'P']);
    assert("CONCAT"@ =~= seq!['C', 'O', 'N', 'C', 'A', 'T']);
    assert("PRINT"@ =~= seq!['P', 'R', 'I', 'N', 'T']);
    assert("HALT"@ =~= seq!['H', 'A', 'L', 'T']);
    assert("RET"@ =~= seq!['R', 'E', 'T']);
    assert("EQ"@ =~= seq!['E', 'Q']);
    assert("GT"@ =~= seq!['G', 'T']);
    assert("LT"@ =~= seq!['L', 'T']);
    assert("NE"@ =~= seq!['N', 'E']);
    assert("GE"@ =~= seq!['G', 'E']);
    assert("LE"@ =~= seq!['L', 'E']);
    assert("EQ_F"@ =~= seq!['E', 'Q', '_', 'F']);
    assert("GT_F"@ =~= seq!['G', 'T', '_', 'F']);
    assert("LT_F"@ =~= seq!['L', 'T', '_', 'F']);
    assert("NE_F"@ =~= seq!['N', 'E', '_', 'F']);
    assert("GE_F"@ =~= seq!['G', 'E', '_', 'F']);
    assert("LE_F"@ =~= seq!['L', 'E', '_', 'F']);
    assert("TRUE"@ =~= seq!['T', 'R', 'U', 'E']);
    assert("FALSE"@ =~= seq!['F', 'A', 'L', 'S', 'E']);
    assert("NOT"@ =~= seq!['N', 'O', 'T']);
    assert("AND"@ =~= seq!['A', 'N', 'D']);
    assert("OR"@ =~= seq!['O', 'R']);
    assert("NULL"@ =~= seq!['N', 'U', 'L', 'L']);
    assert("LEN"@ =~= seq!['L', 'E', 'N']);
    assert("INDEX"@ =~= seq!['I', 'N', 'D', 'E', 'X']);
    assert("DUMP_SCOPE"@ =~= seq!['D', 'U', 'M', 'P', '_', 'S', 'C', 'O', 'P', 'E']);
    assert("MAKE_OBJECT"@ =~= seq!['M', 'A', 'K', 'E', '_', 'O', 'B', 'J', 'E', 'C', 'T']);
    assert("KEYS"@ =~= seq!['K', 'E', 'Y', 'S']);
    assert("CALL_FUNCTION"@ =~= seq!['C', 'A', 'L', 'L', '_', 'F', 'U', 'N', 'C', 'T', 'I', 'O', 'N']);
    assert("CATCH"@ =~= seq!['C', 'A', 'T', 'C', 'H']);
    assert("THROW"@ =~= seq!['T', 'H', 'R', 'O', 'W']);
    assert("END_TRY"@ =~= seq!['E', 'N', 'D', '_', 'T', 'R', 'Y']);
    assert("READ_FILE"@ =~= seq!['R', 'E', 'A', 'D', '_', 'F', 'I', 'L', 'E']);
    assert("WRITE_FILE"@ =~= seq!['W', 'R', 'I', 'T', 'E', '_', 'F', 'I', 'L', 'E']);
    assert("READ_LINE"@ =~= seq!['R', 'E', 'A', 'D', '_', 'L', 'I', 'N', 'E']);
    assert("READ_CHAR"@ =~= seq!['R', 'E', 'A', 'D', '_', 'C', 'H', 'A', 'R']);
    assert("READ_INPUT"@ =~= seq!['R', 'E', 'A', 'D', '_', 'I', 'N', 'P', 'U', 'T']);
    assert("APPEND_FILE"@ =~= seq!['A', 'P', 'P', 'E', 'N', 'D', '_', 'F', 'I', 'L', 'E']);
    assert("FILE_EXISTS"@ =~= seq!['F', 'I', 'L', 'E', '_', 'E', 'X', 'I', 'S', 'T', 'S']);
    assert("FILE_SIZE"@ =~= seq!['F', 'I', 'L', 'E', '_', 'S', 'I', 'Z', 'E']);
    assert("DELETE_FILE"@ =~= seq!['D', 'E', 'L', 'E', 'T', 'E', '_', 'F', 'I', 'L', 'E']);
    assert("LIST_DIR"@ =~= seq!['L', 'I', 'S', 'T', '_', 'D', 'I', 'R']);
    assert("READ_BYTES"@ =~= seq!['R', 'E', 'A', 'D', '_', 'B', 'Y', 'T', 'E', 'S']);
    assert("WRITE_BYTES"@ =~= seq!['W', 'R', 'I', 'T', 'E', '_', 'B', 'Y', 'T', 'E', 'S']);
    assert("GET_ENV"@ =~= seq!['G', 'E', 'T', '_', 'E', 'N', 'V']);
    assert("SET_ENV"@ =~= seq!['S', 'E', 'T', '_', 'E', 'N', 'V']);
    assert("GET_ARGS"@ =~= seq!['G', 'E', 'T', '_', 'A', 'R', 'G', 'S']);
    assert("EXEC"@ =~= seq!['E', 'X', 'E', 'C']);
    assert("EXEC_CAPTURE"@ =~= seq!['E', 'X', 'E', 'C', '_', 'C', 'A', 'P', 'T', 'U', 'R', 'E']);
    assert("EXIT"@ =~= seq!['E', 'X', 'I', 'T']);
    assert("GET_TIME"@ =~= seq!['G', 'E', 'T', '_', 'T', 'I', 'M', 'E']);
    assert("SLEEP"@ =~= seq!['S', 'L', 'E', 'E', 'P']);
    assert("FORMAT_TIME"@ =~= seq!['F', 'O', 'R', 'M', 'A', 'T', '_', 'T', 'I', 'M', 'E']);
    assert("HTTP_GET"@ =~= seq!['H', 'T', 'T', 'P', '_', 'G', 'E', 'T']);
    assert("HTTP_POST"@ =~= seq!['H', 'T', 'T', 'P', '_', 'P', 'O', 'S', 'T']);
    assert("TCP_CONNECT"@ =~= seq!['T', 'C', 'P', '_', 'C', 'O', 'N', 'N', 'E', 'C', 'T']);
    assert("TCP_LISTEN"@ =~= seq!['T', 'C', 'P', '_', 'L', 'I', 'S', 'T', 'E', 'N']);
    assert("TCP_SEND"@ =~= seq!['T', 'C', 'P', '_', 'S', 'E', 'N', 'D']);
    assert("TCP_RECV"@ =~= seq!['T', 'C', 'P', '_', 'R', 'E', 'C', 'V']);
    assert("UDP_BIND"@ =~= seq!['U', 'D', 'P', '_', 'B', 'I', 'N', 'D']);
    assert("UDP_SEND"@ =~= seq!['U', 'D', 'P', '_', 'S', 'E', 'N', 'D']);
    assert("UDP_RECV"@ =~= seq!['U', 'D', 'P', '_', 'R', 'E', 'C', 'V']);
    assert("DNS_RESOLVE"@ =~= seq!['D', 'N', 'S', '_', 'R', 'E', 'S', 'O', 'L', 'V', 'E']);
    assert("ASYNC_READ"@ =~= seq!['A', 'S', 'Y', 'N', 'C', '_', 'R', 'E', 'A', 'D']);
    assert("ASYNC_WRITE"@ =~= seq!['A', 'S', 'Y', 'N', 'C', '_', 'W', 'R', 'I', 'T', 'E']);
    assert("AWAIT"@ =~= seq!['A', 'W', 'A', 'I', 'T']);
    assert("STREAM_CREATE"@ =~= seq!['S', 'T', 'R', 'E', 'A', 'M', '_', 'C', 'R', 'E', 'A', 'T', 'E']);
    assert("STREAM_READ"@ =~= seq!['S', 'T', 'R', 'E', 'A', 'M', '_', 'R', 'E', 'A', 'D']);
    assert("STREAM_WRITE"@ =~= seq!['S', 'T', 'R', 'E', 'A', 'M', '_', 'W', 'R', 'I', 'T', 'E']);
    assert("STREAM_CLOSE"@ =~= seq!['S', 'T', 'R', 'E', 'A', 'M', '_', 'C', 'L', 'O', 'S', 'E']);
    assert("JSON_PARSE"@ =~= seq!['J', 'S', 'O', 'N', '_', 'P', 'A', 'R', 'S', 'E']);
    assert("JSON_STRINGIFY"@ =~= seq!['J', 'S', 'O', 'N', '_', 'S', 'T', 'R', 'I', 'N', 'G', 'I', 'F', 'Y']);
    assert("CSV_PARSE"@ =~= seq!['C', 'S', 'V', '_', 'P', 'A', 'R', 'S', 'E']);
    assert("CSV_WRITE"@ =~= seq!['C', 'S', 'V', '_', 'W', 'R', 'I', 'T', 'E']);
    assert("COMPRESS"@ =~= seq!['C', 'O', 'M', 'P', 'R', 'E', 'S', 'S']);
    assert("DECOMPRESS"@ =~= seq!['D', 'E', 'C', 'O', 'M', 'P', 'R', 'E', 'S', 'S']);
    assert("ENCRYPT"@ =~= seq!['E', 'N', 'C', 'R', 'Y', 'P', 'T']);
    assert("DECRYPT"@ =~= seq!['D', 'E', 'C', 'R', 'Y', 'P', 'T']);
    assert("HASH"@ =~= seq!['H', 'A', 'S', 'H']);
    assert("DB_CONNECT"@ =~= seq!['D', 'B', '_', 'C', 'O', 'N', 'N', 'E', 'C', 'T']);
    assert("DB_QUERY"@ =~= seq!['D', 'B', '_', 'Q', 'U', 'E', 'R', 'Y']);
    assert("DB_EXEC"@ =~= seq!['D', 'B', '_', 'E', 'X', 'E', 'C']);
    assert("YIELD"@ =~= seq!['Y', 'I', 'E', 'L', 'D']);
    assert("RECEIVE"@ =~= seq!['R', 'E', 'C', 'E', 'I', 'V', 'E']);
    assert("SPAWN"@ =~= seq!['S', 'P', 'A', 'W', 'N']);
    assert("TRAP_EXIT"@ =~= seq!['T', 'R', 'A', 'P', '_', 'E', 'X', 'I', 'T']);
    assert("START_SUPERVISOR"@ =~= seq!['S', 'T', 'A', 'R', 'T', '_', 'S', 'U', 'P', 'E', 'R', 'V', 'I', 'S', 'O', 'R']);
    let t = instruction_text(op, ft);
    assert(!t.contains(' ') && !t.contains(';') && !t.contains('\n'));
    lemma_before_all(t, ' ', t.len() as int);
    assert(t.skip(0) =~= t);
}


/// The line of a `TRY` reads back as that `TRY` where its label leads to
/// the handler's address.
#[verifier::rlimit(100)]
proof fn lemma_try_line(
    a: usize,
    ft: spec_fn(u64) -> Seq<char>,
    labels: Seq<(Seq<char>, usize)>,
    n: int,
    float: Option<u64>,
)
    requires
        lookup_label(labels, catch_label(a as nat)) == Some(a),
    ensures
        clean_text(instruction_text(OpCodeModel::Try { catch_addr: a }, ft)),
        line_instruction(labels, n, instruction_text(OpCodeModel::Try { catch_addr: a }, ft), float) == Ok::<
            OpCodeModel,
            AsmFault,
        >(OpCodeModel::Try { catch_addr: a }),
{
    reveal_strlit("LABEL ");
    assert("LABEL "@ =~= seq!['L', 'A', 'B', 'E', 'L', ' ']);
    reveal_strlit("TRY ");
    assert("TRY "@ =~= seq!['T', 'R', 'Y', ' ']);
    reveal_strlit("catch_");
    assert("catch_"@ =~= seq!['c', 'a', 't', 'c', 'h', '_']);
    reveal_strlit("ADD");
    reveal_strlit("ADD_F");
    reveal_strlit("SUB");
    reveal_strlit("SUB_F");
    reveal_strlit("MUL");
    reveal_strlit("MUL_F");
    reveal_strlit("DIV");
    reveal_strlit("DIV_F");
    reveal_strlit("DUP");
    reveal_strlit("CONCAT");
    reveal_strlit("PRINT");
    reveal_strlit("HALT");
    reveal_strlit("RET");
    reveal_strlit("EQ");
    reveal_strlit("GT");
    reveal_strlit("LT");
    reveal_strlit("NE");
    reveal_strlit("GE");
    reveal_strlit("LE");
    reveal_strlit("EQ_F");
    reveal_strlit("GT_F");
    reveal_strlit("LT_F");
    reveal_strlit("NE_F");
    reveal_strlit("GE_F");
    reveal_strlit("LE_F");
    reveal_strlit("TRUE");
    reveal_strlit("FALSE");
    reveal_strlit("NOT");
    reveal_strlit("AND");
    reveal_strlit("OR");
    reveal_strlit("NULL");
    reveal_strlit("LEN");
    reveal_strlit("INDEX");
    reveal_strlit("DUMP_SCOPE");
    reveal_strlit("MAKE_OBJECT");
    reveal_strlit("KEYS");
    reveal_strlit("CALL_FUNCTION");
    reveal_strlit("CATCH");
    reveal_strlit("THROW");
    reveal_strlit("END_TRY");
    reveal_strlit("READ_FILE");
    reveal_strlit("WRITE_FILE");
    reveal_strlit("READ_LINE");
    reveal_strlit("READ_CHAR");
    reveal_strlit("READ_INPUT");
    reveal_strlit("APPEND_FILE");
    reveal_strlit("FILE_EXISTS");
    reveal_strlit("FILE_SIZE");
    reveal_strlit("DELETE_FILE");
    reveal_strlit("LIST_DIR");
    reveal_strlit("READ_BYTES");
    reveal_strlit("WRITE_BYTES");
    reveal_strlit("GET_ENV");
    reveal_strlit("SET_ENV");
    reveal_strlit("GET_ARGS");
    reveal_strlit("EXEC");
    reveal_strlit("EXEC_CAPTURE");
    reveal_strlit("EXIT");
    reveal_strlit("GET_TIME");
    reveal_strlit("SLEEP");
    reveal_strlit("FORMAT_TIME");
    reveal_strlit("HTTP_GET");
    reveal_strlit("HTTP_POST");
    reveal_strlit("TCP_CONNECT");
    reveal_strlit("TCP_LISTEN");
    reveal_strlit("TCP_SEND");
    reveal_strlit("TCP_RECV");
    reveal_strlit("UDP_BIND");
    reveal_strlit("UDP_SEND");
    reveal_strlit("UDP_RECV");
    reveal_strlit("DNS_RESOLVE");
    reveal_strlit("ASYNC_READ");
    reveal_strlit("ASYNC_WRITE");
    reveal_strlit("AWAIT");
    reveal_strlit("STREAM_CREATE");
    reveal_strlit("STREAM_READ");
    reveal_strlit("STREAM_WRITE");
    reveal_strlit("STREAM_CLOSE");
    reveal_strlit("JSON_PARSE");
    reveal_strlit("JSON_STRINGIFY");
    reveal_strlit("CSV_PARSE");
    reveal_strlit("CSV_WRITE");
    reveal_strlit("COMPRESS");
    reveal_strlit("DECOMPRESS");
    reveal_strlit("ENCRYPT");
    reveal_strlit("DECRYPT");
    reveal_strlit("HASH");
    reveal_strlit("DB_CONNECT");
    reveal_strlit("DB_QUERY");
    reveal_strlit("DB_EXEC");
    reveal_strlit("YIELD");
    reveal_strlit("RECEIVE");
    reveal_strlit("SPAWN");
    reveal_strlit("TRAP_EXIT");
    reveal_strlit("START_SUPERVISOR");
    reveal_strlit("TRY");
    reveal_strlit("PUSH_INT");
    reveal_strlit("PUSH_FLOAT");
    reveal_strlit("PUSH_BOOL");
    reveal_strlit("CALL");
    reveal_strlit("MAKE_FUNCTION");
    reveal_strlit("MAKE_LAMBDA");
    reveal_strlit("JMP");
    reveal_strlit("JZ");
    assert("ADD"@ =~= seq!['A', 'D', 'D']);
    assert("ADD_F"@ =~= seq!['A', 'D', 'D', '_', 'F']);
    assert("SUB"@ =~= seq!['S', 'U', 'B']);
    assert("SUB_F"@ =~= seq!['S', 'U', 'B', '_', 'F']);
    assert("MUL"@ =~= seq!['M', 'U', 'L']);
    assert("MUL_F"@ =~= seq!['M', 'U', 'L', '_', 'F']);
    assert("DIV"@ =~= seq!['D', 'I', 'V']);
    assert("DIV_F"@ =~= seq!['D', 'I', 'V', '_', 'F']);
    assert("DUP"@ =~= seq!['D', 'U', 'P']);
    assert("CONCAT"@ =~= seq!['C', 'O', 'N', 'C', 'A', 'T']);
    assert("PRINT"@ =~= seq!['P', 'R', 'I', 'N', 'T']);
    assert("HALT"@ =~= seq!['H', 'A', 'L', 'T']);
    assert("RET"@ =~= seq!['R', 'E', 'T']);
    assert("EQ"@ =~= seq!['E', 'Q']);
    assert("GT"@ =~= seq!['G', 'T']);
    assert("LT"@ =~= seq!['L', 'T']);
    assert("NE"@ =~= seq!['N', 'E']);
    assert("GE"@ =~= seq!['G', 'E']);
    assert("LE"@ =~= seq!['L', 'E']);
    assert("EQ_F"@ =~= seq!['E', 'Q', '_', 'F']);
    assert("GT_F"@ =~= seq!['G', 'T', '_', 'F']);
    assert("LT_F"@ =~= seq!['L', 'T', '_', 'F']);
    assert("NE_F"@ =~= seq!['N', 'E', '_', 'F']);
    assert("GE_F"@ =~= seq!['G', 'E', '_', 'F']);
    assert("LE_F"@ =~= seq!['L', 'E', '_', 'F']);
    assert("TRUE"@ =~= seq!['T', 'R', 'U', 'E']);
    assert("FALSE"@ =~= seq!['F', 'A', 'L', 'S', 'E']);
    assert("NOT"@ =~= seq!['N', 'O', 'T']);
    assert("AND"@ =~= seq!['A', 'N', 'D']);
    assert("OR"@ =~= seq!['O', 'R']);
    assert("NULL"@ =~= seq!['N', 'U', 'L', 'L']);
    assert("LEN"@ =~= seq!['L', 'E', 'N']);
    assert("INDEX"@ =~= seq!['I', 'N', 'D', 'E', 'X']);
    assert("DUMP_SCOPE"@ =~= seq!['D', 'U', 'M', 'P', '_', 'S', 'C', 'O', 'P', 'E']);
    assert("MAKE_OBJECT"@ =~= seq!['M', 'A', 'K', 'E', '_', 'O', 'B', 'J', 'E', 'C', 'T']);
    assert("KEYS"@ =~= seq!['K', 'E', 'Y', 'S']);
    assert("CALL_FUNCTION"@ =~= seq!['C', 'A', 'L', 'L', '_', 'F', 'U', 'N', 'C', 'T', 'I', 'O', 'N']);
    assert("CATCH"@ =~= seq!['C', 'A', 'T', 'C', 'H']);
    assert("THROW"@ =~= seq!['T', 'H', 'R', 'O', 'W']);
    assert("END_TRY"@ =~= seq!['E', 'N', 'D', '_', 'T', 'R', 'Y']);
    assert("READ_FILE"@ =~= seq!['R', 'E', 'A', 'D', '_', 'F', 'I', 'L', 'E']);
    assert("WRITE_FILE"@ =~= seq!['W', 'R', 'I', 'T', 'E', '_', 'F', 'I', 'L', 'E']);
    assert("READ_LINE"@ =~= seq!['R', 'E', 'A', 'D', '_', 'L', 'I', 'N', 'E']);
    assert("READ_CHAR"@ =~= seq!['R', 'E', 'A', 'D', '_', 'C', 'H', 'A', 'R']);
    assert("READ_INPUT"@ =~= seq!['R', 'E', 'A', 'D', '_', 'I', 'N', 'P', 'U', 'T']);
    assert("APPEND_FILE"@ =~= seq!['A', 'P', 'P', 'E', 'N', 'D', '_', 'F', 'I', 'L', 'E']);
    assert("FILE_EXISTS"@ =~= seq!['F', 'I', 'L', 'E', '_', 'E', 'X', 'I', 'S', 'T', 'S']);
    assert("FILE_SIZE"@ =~= seq!['F', 'I', 'L', 'E', '_', 'S', 'I', 'Z', 'E']);
    assert("DELETE_FILE"@ =~= seq!['D', 'E', 'L', 'E', 'T', 'E', '_', 'F', 'I', 'L', 'E']);
    assert("LIST_DIR"@ =~= seq!['L', 'I', 'S', 'T', '_', 'D', 'I', 'R']);
    assert("READ_BYTES"@ =~= seq!['R', 'E', 'A', 'D', '_', 'B', 'Y', 'T', 'E', 'S']);
    assert("WRITE_BYTES"@ =~= seq!['W', 'R', 'I', 'T', 'E', '_', 'B', 'Y', 'T', 'E', 'S']);
    assert("GET_ENV"@ =~= seq!['G', 'E', 'T', '_', 'E', 'N', 'V']);
    assert("SET_ENV"@ =~= seq!['S', 'E', 'T', '_', 'E', 'N', 'V']);
    assert("GET_ARGS"@ =~= seq!['G', 'E', 'T', '_', 'A', 'R', 'G', 'S']);
    assert("EXEC"@ =~= seq!['E', 'X', 'E', 'C']);
    assert("EXEC_CAPTURE"@ =~= seq!['E', 'X', 'E', 'C', '_', 'C', 'A', 'P', 'T', 'U', 'R', 'E']);
    assert("EXIT"@ =~= seq!['E', 'X', 'I', 'T']);
    assert("GET_TIME"@ =~= seq!['G', 'E', 'T', '_', 'T', 'I', 'M', 'E']);
    assert("SLEEP"@ =~= seq!['S', 'L', 'E', 'E', 'P']);
    assert("FORMAT_TIME"@ =~= seq!['F', 'O', 'R', 'M', 'A', 'T', '_', 'T', 'I', 'M', 'E']);
    assert("HTTP_GET"@ =~= seq!['H', 'T', 'T', 'P', '_', 'G', 'E', 'T']);
    assert("HTTP_POST"@ =~= seq!['H', 'T', 'T', 'P', '_', 'P', 'O', 'S', 'T']);
    assert("TCP_CONNECT"@ =~= seq!['T', 'C', 'P', '_', 'C', 'O', 'N', 'N', 'E', 'C', 'T']);
    assert("TCP_LISTEN"@ =~= seq!['T', 'C', 'P', '_', 'L', 'I', 'S', 'T', 'E', 'N']);
    assert("TCP_SEND"@ =~= seq!['T', 'C', 'P', '_', 'S', 'E', 'N', 'D']);
    assert("TCP_RECV"@ =~= seq!['T', 'C', 'P', '_', 'R', 'E', 'C', 'V']);
    assert("UDP_BIND"@ =~= seq!['U', 'D', 'P', '_', 'B', 'I', 'N', 'D']);
    assert("UDP_SEND"@ =~= seq!['U', 'D', 'P', '_', 'S', 'E', 'N', 'D']);
    assert("UDP_RECV"@ =~= seq!['U', 'D', 'P', '_', 'R', 'E', 'C', 'V']);
    assert("DNS_RESOLVE"@ =~= seq!['D', 'N', 'S', '_', 'R', 'E', 'S', 'O', 'L', 'V', 'E']);
    assert("ASYNC_READ"@ =~= seq!['A', 'S', 'Y', 'N', 'C', '_', 'R', 'E', 'A', 'D']);
    assert("ASYNC_WRITE"@ =~= seq!['A', 'S', 'Y', 'N', 'C', '_', 'W', 'R', 'I', 'T', 'E']);
    assert("AWAIT"@ =~= seq!['A', 'W', 'A', 'I', 'T']);
    assert("STREAM_CREATE"@ =~= seq!['S', 'T', 'R', 'E', 'A', 'M', '_', 'C', 'R', 'E', 'A', 'T', 'E']);
    assert("STREAM_READ"@ =~= seq!['S', 'T', 'R', 'E', 'A', 'M', '_', 'R', 'E', 'A', 'D']);
    assert("STREAM_WRITE"@ =~= seq!['S', 'T', 'R', 'E', 'A', 'M', '_', 'W', 'R', 'I', 'T', 'E']);
    assert("STREAM_CLOSE"@ =~= seq!['S', 'T', 'R', 'E', 'A', 'M', '_', 'C', 'L', 'O', 'S', 'E']);
    assert("JSON_PARSE"@ =~= seq!['J', 'S', 'O', 'N', '_', 'P', 'A', 'R', 'S', 'E']);
    assert("JSON_STRINGIFY"@ =~= seq!['J', 'S', 'O', 'N', '_', 'S', 'T', 'R', 'I', 'N', 'G', 'I', 'F', 'Y']);
    assert("CSV_PARSE"@ =~= seq!['C', 'S', 'V', '_', 'P', 'A', 'R', 'S', 'E']);
    assert("CSV_WRITE"@ =~= seq!['C', 'S', 'V', '_', 'W', 'R', 'I', 'T', 'E']);
    assert("COMPRESS"@ =~= seq!['C', 'O', 'M', 'P', 'R', 'E', 'S', 'S']);
    assert("DECOMPRESS"@ =~= seq!['D', 'E', 'C', 'O', 'M', 'P', 'R', 'E', 'S', 'S']);
    assert("ENCRYPT"@ =~= seq!['E', 'N', 'C', 'R', 'Y', 'P', 'T']);
    assert("DECRYPT"@ =~= seq!['D', 'E', 'C', 'R', 'Y', 'P', 'T']);
    assert("HASH"@ =~= seq!['H', 'A', 'S', 'H']);
    assert("DB_CONNECT"@ =~= seq!['D', 'B', '_', 'C', 'O', 'N', 'N', 'E', 'C', 'T']);
    assert("DB_QUERY"@ =~= seq!['D', 'B', '_', 'Q', 'U', 'E', 'R', 'Y']);
    assert("DB_EXEC"@ =~= seq!['D', 'B', '_', 'E', 'X', 'E', 'C']);
    assert("YIELD"@ =~= seq!['Y', 'I', 'E', 'L', 'D']);
    assert("RECEIVE"@ =~= seq!['R', 'E', 'C', 'E', 'I', 'V', 'E']);
    assert("SPAWN"@ =~= seq!['S', 'P', 'A', 'W', 'N']);
    assert("TRAP_EXIT"@ =~= seq!['T', 'R', 'A', 'P', '_', 'E', 'X', 'I', 'T']);
    assert("START_SUPERVISOR"@ =~= seq!['S', 'T', 'A', 'R', 'T', '_', 'S', 'U', 'P', 'E', 'R', 'V', 'I', 'S', 'O', 'R']);
    assert("TRY"@ =~= seq!['T', 'R', 'Y']);
    assert("PUSH_INT"@ =~= seq!['P', 'U', 'S', 'H', '_', 'I', 'N', 'T']);
    assert("PUSH_FLOAT"@ =~= seq!['P', 'U', 'S', 'H', '_', 'F', 'L', 'O', 'A', 'T']);
    assert("PUSH_BOOL"@ =~= seq!['P', 'U', 'S', 'H', '_', 'B', 'O', 'O', 'L']);
    assert("CALL"@ =~= seq!['C', 'A', 'L', 'L']);
    assert("MAKE_FUNCTION"@ =~= seq!['M', 'A', 'K', 'E', '_', 'F', 'U', 'N', 'C', 'T', 'I', 'O', 'N']);
    assert("MAKE_LAMBDA"@ =~= seq!['M', 'A', 'K', 'E', '_', 'L', 'A', 'M', 'B', 'D', 'A']);
    assert("JMP"@ =~= seq!['J', 'M', 'P']);
    assert("JZ"@ =~= seq!['J', 'Z']);
    lemma_nat_text_digits(a as nat);
    let d = nat_text(a as nat);
    let t = instruction_text(OpCodeModel::Try { catch_addr: a }, ft);
    assert(t == "TRY "@ + ("catch_"@ + d));
    assert forall|i: int| 0 <= i < t.len() implies t[i] != '\n' && t[i] != ';' by {
        if i >= 10 {
            assert(t[i] == d[i - 10]);
        }
    }
    assert(t.last() == d[d.len() - 1]);
    assert(t.take(6) != "LABEL "@) by {
        assert(t.take(6)[0] == 'T');
    }
    lemma_before_char(t, ' ', 3);
    assert(t.take(3) =~= "TRY"@);
    assert(operand(t) =~= catch_label(a as nat));
    let c = catch_label(a as nat);
    assert(c.last() == d[d.len() - 1]);
    assert(trim(c) == c);
}


/// The second pass over instruction lines that each read back as the
/// instruction at their position.
proof fn lemma_assemble_lines(
    labels: Seq<(Seq<char>, usize)>,
    ins: Seq<(int, Seq<char>)>,
    floats: Seq<Option<u64>>,
    p: Seq<OpCodeModel>,
    k: int,
)
    requires
        ins.len() == p.len(),
        0 <= k <= p.len(),
        forall|i: int, f: Option<u64>|
            0 <= i < p.len() ==> #[trigger] line_instruction(labels, ins[i].0, ins[i].1, f) == Ok::<
                OpCodeModel,
                AsmFault,
            >(p[i]),
    ensures
        assemble(labels, ins.take(k), floats) == Ok::<Seq<OpCodeModel>, AsmFault>(p.take(k)),
    decreases k,
{
    if k > 0 {
        lemma_assemble_lines(labels, ins, floats, p, k - 1);
        let t = ins.take(k);
        assert(t.drop_last() =~= ins.take(k - 1));
        assert(t.last() == ins[k - 1]);
        let f = float_at(floats, float_operands(t.drop_last()).len() as int);
        assert(line_instruction(labels, ins[k - 1].0, ins[k - 1].1, f) == Ok::<OpCodeModel, AsmFault>(p[k - 1]));
        assert(p.take(k - 1).push(p[k - 1]) =~= p.take(k));
    } else {
        assert(ins.take(0) =~= Seq::<(int, Seq<char>)>::empty());
        assert(p.take(0) =~= Seq::<OpCodeModel>::empty());
    }
}

/// Whether the line of `op`, in a listing of `len` instructions, is one
/// that reads back by what is proved here: an instruction without operand,
/// a `TRY` whose handler lies in the program or just past its end, or one
/// whose operand is a number.
pub open spec fn listable(op: OpCodeModel, len: int) -> bool {
    ||| is_unit_op(op)
    ||| (op matches OpCodeModel::Try { catch_addr } && catch_addr <= len)
    ||| is_number_op(op)
}

proof fn lemma_listable_line(
    p: Seq<OpCodeModel>,
    i: int,
    ft: spec_fn(u64) -> Seq<char>,
    n: int,
    f: Option<u64>,
)
    requires
        0 <= i < p.len(),
        listable(p[i], p.len() as int),
    ensures
        clean_text(instruction_text(p[i], ft)),
        line_instruction(catch_labels(p, p.len() + 1int), n, instruction_text(p[i], ft), f) == Ok::<
            OpCodeModel,
            AsmFault,
        >(p[i]),
{
    let labels = catch_labels(p, p.len() + 1int);
    if is_unit_op(p[i]) {
        lemma_unit_line(p[i], ft);
    } else if p[i] is Try {
        let a = p[i]->catch_addr;
        assert(p[i] == OpCodeModel::Try { catch_addr: a });
        assert(is_catch_target(p, a as int));
        lemma_catch_lookup(p, p.len() + 1int, a as int);
        lemma_try_line(a, ft, labels, n, f);
    } else {
        lemma_number_line(p[i], ft, labels, n, f);
    }
}

/// A listing of a program whose lines all read back (see [`listable`])
/// reads back as the program, whatever the host reads of float operands
/// (it has none).
pub proof fn law_listing_reads_back(p: Seq<OpCodeModel>, ft: spec_fn(u64) -> Seq<char>, floats: Seq<Option<u64>>)
    requires
        forall|i: int| 0 <= i < p.len() ==> listable(#[trigger] p[i], p.len() as int),
    ensures
        program_of(program_text(p, ft), floats) == Ok::<Seq<OpCodeModel>, AsmFault>(p),
{
    let labels = catch_labels(p, p.len() + 1int);
    assert forall|i: int| 0 <= i < p.len() implies clean_text(#[trigger] instruction_text(p[i], ft)) by {
        lemma_listable_line(p, i, ft, 0, None);
    }
    lemma_listing_scan(p, ft);
    let sc = scan_lines(lines(program_text(p, ft)));
    assert forall|i: int, f: Option<u64>| 0 <= i < p.len() implies #[trigger] line_instruction(
        labels,
        sc.instrs[i].0,
        sc.instrs[i].1,
        f,
    ) == Ok::<OpCodeModel, AsmFault>(p[i]) by {
        assert(sc.instrs[i].1 == instruction_text(p[i], ft));
        lemma_listable_line(p, i, ft, sc.instrs[i].0, f);
    }
    lemma_assemble_lines(labels, sc.instrs, floats, p, p.len() as int);
    assert(sc.instrs.take(p.len() as int) =~= sc.instrs);
    assert(p.take(p.len() as int) =~= p);
}


proof fn lemma_digit_value(d: nat)
    requires
        d < 10,
    ensures
        (digit_char(d) as nat) - ('0' as nat) == d,
        is_digit(digit_char(d)),
{
}

proof fn lemma_nat_text_value(n: nat)
    ensures
        is_numeral(nat_text(n)),
        digits_value(nat_text(n)) == n,
    decreases n,
{
    lemma_nat_text_digits(n);
    let t = nat_text(n);
    if n >= 10 {
        lemma_nat_text_value(n / 10);
        lemma_digit_value(n % 10);
        assert(t.drop_last() == nat_text(n / 10));
        assert(t.last() == digit_char(n % 10));
        assert(digits_value(t) == digits_value(t.drop_last()) * 10 + ((t.last() as nat) - ('0' as nat)) as nat);
        assert(n == (n / 10) * 10 + n % 10);
    } else {
        lemma_digit_value(n);
        assert(t.drop_last() =~= Seq::<char>::empty());
        assert(digits_value(t) == digits_value(t.drop_last()) * 10 + ((t.last() as nat) - ('0' as nat)) as nat);
    }
}

/// The decimal digits of a number parse back as the number.
proof fn lemma_parse_nat_text(n: nat)
    ensures
        parse_int(nat_text(n)) == Some(n as int),
        n <= u64::MAX ==> parse_u64(nat_text(n)) == Some(n as u64),
        n <= usize::MAX ==> parse_usize(nat_text(n)) == Some(n as usize),
{
    lemma_nat_text_value(n);
    lemma_nat_text_digits(n);
    assert(is_digit(nat_text(n)[0]));
}

/// The decimal text of an integer parses back as the integer.
proof fn lemma_parse_int_text(i: i64)
    ensures
        parse_i64(int_text(i as int)) == Some(i),
        int_text(i as int).len() > 0,
        is_digit(int_text(i as int).last()),
        !int_text(i as int).contains(';'),
        !int_text(i as int).contains('\n'),
        !int_text(i as int).contains(' '),
        !is_ws(int_text(i as int)[0]),
{
    if i < 0 {
        let m = (-(i as int)) as nat;
        lemma_parse_nat_text(m);
        lemma_nat_text_digits(m);
        let t = int_text(i as int);
        assert(t.drop_first() =~= nat_text(m));
        assert(t.last() == nat_text(m).last());
        assert forall|k: int| 0 <= k < t.len() implies t[k] != ';' && t[k] != '\n' && t[k] != ' ' by {
            if k > 0 {
                assert(t[k] == nat_text(m)[k - 1]);
            }
        }
    } else {
        lemma_parse_nat_text(i as nat);
        lemma_nat_text_digits(i as nat);
        let t = int_text(i as int);
        assert forall|k: int| 0 <= k < t.len() implies t[k] != ';' && t[k] != '\n' && t[k] != ' ' by {
            assert(is_digit(t[k]));
        }
    }
}

/// A line made of a mnemonic, a space and an operand.
proof fn lemma_mnemonic_split(m: Seq<char>, rest: Seq<char>)
    requires
        !m.contains(' '),
    ensures
        before_char(m + seq![' '] + rest, ' ') == m,
        operand(m + seq![' '] + rest) == rest,
{
    let t = m + seq![' '] + rest;
    assert forall|j: int| 0 <= j < m.len() implies #[trigger] t[j] != ' ' by {
        assert(t[j] == m[j]);
    }
    lemma_before_char(t, ' ', m.len() as int);
    assert(t.take(m.len() as int) =~= m);
    assert(t.skip(m.len() + 1int) =~= rest);
}


proof fn lemma_clean_concat(a: Seq<char>, b: Seq<char>)
    requires
        a.len() >= 2,
        b.len() > 0,
        !a.contains(';'),
        !a.contains('\n'),
        !b.contains(';'),
        !b.contains('\n'),
        !is_ws(a[0]),
        !is_ws(b.last()),
        !(a[0] == 'L' && a[1] == 'A'),
    ensures
        clean_text(a + b),
{
    let t = a + b;
    assert forall|k: int| 0 <= k < t.len() implies t[k] != ';' && t[k] != '\n' by {
        if k < a.len() {
            assert(t[k] == a[k]);
        } else {
            assert(t[k] == b[k - a.len()]);
        }
    }
    reveal_strlit("LABEL ");
    assert("LABEL "@ =~= seq!['L', 'A', 'B', 'E', 'L', ' ']);
    if t.len() >= 6 && t.take(6) == "LABEL "@ {
        assert(t.take(6)[0] == t[0] && t.take(6)[1] == t[1]);
        assert(t[0] == a[0] && t[1] == a[1]);
    }
    assert(t[0] == a[0]);
    assert(t.last() == b.last());
}

/// Whether an instruction has a number as its operand.
pub open spec fn is_number_op(op: OpCodeModel) -> bool {
    ||| op is PushInt
    ||| op is Jmp
    ||| op is Jz
    ||| op is MakeList
    ||| op is Send
    ||| op is Link
    ||| op is Unlink
    ||| op is Monitor
}

/// The line of an instruction whose operand is a number reads back as that
/// instruction.
#[verifier::rlimit(100)]
proof fn lemma_number_line(
    op: OpCodeModel,
    ft: spec_fn(u64) -> Seq<char>,
    labels: Seq<(Seq<char>, usize)>,
    n: int,
    float: Option<u64>,
)
    requires
        is_number_op(op),
    ensures
        clean_text(instruction_text(op, ft)),
        line_instruction(labels, n, instruction_text(op, ft), float) == Ok::<OpCodeModel, AsmFault>(op),
{
    lemma_literals();
    let t = instruction_text(op, ft);
    let (m, rest) = match op {
        OpCodeModel::PushInt(i) => ("PUSH_INT"@, int_text(i as int)),
        OpCodeModel::Jmp(a) => ("JMP"@, nat_text(a as nat)),
        OpCodeModel::Jz(a) => ("JZ"@, nat_text(a as nat)),
        OpCodeModel::MakeList(a) => ("MAKE_LIST"@, nat_text(a as nat)),
        OpCodeModel::Send(a) => ("SEND"@, nat_text(a as nat)),
        OpCodeModel::Link(a) => ("LINK"@, nat_text(a as nat)),
        OpCodeModel::Unlink(a) => ("UNLINK"@, nat_text(a as nat)),
        OpCodeModel::Monitor(a) => ("MONITOR"@, nat_text(a as nat)),
        _ => (Seq::empty(), Seq::empty()),
    };
    match op {
        OpCodeModel::PushInt(i) => {
            lemma_parse_int_text(i);
        },
        OpCodeModel::Jmp(a) => {
            lemma_parse_nat_text(a as nat);
        },
        OpCodeModel::Jz(a) => {
            lemma_parse_nat_text(a as nat);
        },
        OpCodeModel::MakeList(a) => {
            lemma_parse_nat_text(a as nat);
        },
        OpCodeModel::Send(a) => {
            lemma_parse_nat_text(a as nat);
        },
        OpCodeModel::Link(a) => {
            lemma_parse_nat_text(a as nat);
        },
        OpCodeModel::Unlink(a) => {
            lemma_parse_nat_text(a as nat);
        },
        OpCodeModel::Monitor(a) => {
            lemma_parse_nat_text(a as nat);
        },
        _ => {},
    }
    if !(op is PushInt) {
        let v = match op {
            OpCodeModel::Jmp(a) => a as nat,
            OpCodeModel::Jz(a) => a as nat,
            OpCodeModel::MakeList(a) => a as nat,
            OpCodeModel::Send(a) => a as nat,
            OpCodeModel::Link(a) => a as nat,
            OpCodeModel::Unlink(a) => a as nat,
            OpCodeModel::Monitor(a) => a as nat,
            _ => 0,
        };
        lemma_nat_text_digits(v);
        assert(rest == nat_text(v));
        assert forall|k: int| 0 <= k < rest.len() implies rest[k] != ';' && rest[k] != '\n' && rest[k] != ' ' by {
            assert(is_digit(rest[k]));
        }
        assert(is_digit(rest[0]) && is_digit(rest.last()));
        assert(trim(rest) == rest);
    }
    assert(t == m + seq![' '] + rest);
    lemma_mnemonic_split(m, rest);
    lemma_clean_concat(m + seq![' '], rest);
}


} // verus!

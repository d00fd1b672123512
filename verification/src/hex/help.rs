//! The F1 help text, in each interface language, and the arithmetic of the box
//! it is shown in.
use vstd::prelude::*;

use unicode_width::UnicodeWidthStr;

use crate::app::{App, UIState};
use crate::hex::events::{HexAction, Key, KeyPress};
use crate::i18n::Lang;
use crate::text::{chars_of, string_from, string_of};

verus! {

/// The keyboard reference in English. Key names, option names and encoding
/// names are never translated: they are what the user types.
pub const HELP_EN: &'static str = "\
GLOBAL (any view)
  Tab / Shift+Tab      Switch view (Hex <-> Disasm; skips non-executables)
  F6                   Strings list
  F7                   Text view (press again to come back)
  F4                   Header view (press again to come back)
  F5                   String References dialog
  F8                   About / program info (paths, encodings, license)
  F9 / Ctrl+O          Open File dialog
  F12                  Save and quit (same as ':wq')
  Alt+F1               Select Drive dialog
  Alt+F2               Toggle Offset <-> VA address display
  Alt+F6               Set image base (blank = back to the file's own)
  Alt+F7               Cycle decoding width: auto -> 16 -> 32 -> 64
  ;                    Comment the byte under the cursor
  Esc                  Back / cancel / clear selection
  :                    Command line
  =                    Calculator (hex by default, 't' = decimal,
                        Ctrl+L clears, Up/Down history)
  Ctrl+G                Goto Address (hex or VA)
  Ctrl+X                Copy current VA to clipboard
  Ctrl+Left / '-'       Jump back to previous cursor position
  Ctrl+Right / '+'      Jump forward to next cursor position
  Alt+L                 Log window (y copies it to the clipboard)
  Ctrl+K                Modify Block dialog
  Ctrl+H                Wildcard Hex Pattern Replace dialog
  Ctrl+B                Find Pattern dialog (ANSI/UTF-8/UNICODE/Hex)
  F3 / Shift+F3          Repeat last pattern search forward / backward
  Ctrl+R                Cross References (Xref) search

HEX VIEW - navigation
  Arrow keys             Move cursor
  Home / Ctrl+Home       Start of line / start of file
  End / Ctrl+End          End of line / end of file
  PageUp / PageDown       Scroll one page
  Backspace               Go to last visited offset
  [ / ]                    Mark the block: start / end at the cursor
  Alt+[ / Alt+]            Jump to the block's ends, or the nearest
                            coloured block edge

HEX VIEW - editing
  F2                    Enter edit mode at cursor
  Tab                    Switch edit column: HEX -> enc1 -> enc2
  Shift + arrows         Select a block in the focused column
  Ctrl+C                 Copy that block (hex from the byte column,
                          decoded text from an encoding column)
  Ctrl+E                Edit Data dialog
  ~                     Toggle upper/lower case of byte under cursor
  Shift+V               Paste hex or text bytes from clipboard
  Alt+H                 Toggle highlight for byte under cursor
  Ctrl+Z / Alt+Backspace Undo last change (or reverted selection)
  Ctrl+Y                Redo last undone change
  Alt+F3                Revert only the byte under the cursor

HEX VIEW - inside edit mode (F2)
  0-9 a-f                 Type hex digits (two make a byte)
  Tab                     Switch column: HEX -> enc1 -> enc2
  Shift + arrows          Select a block in the focused column
  Ctrl+C                  Copy that block
  Ctrl+E                  Edit Data dialog (also works here)
  ~                       Toggle case and advance
  Esc / Enter             Leave edit mode

HEX VIEW - selection
  Shift + movement        Start / extend a selection (as in Disasm view)
  Esc                     Clear the selection
  Insert                  Fill selection with 0x00 (no selection: 1 byte)
  Delete                  Fill selection with 0x90 NOPs (or just 1 byte)
  ~                       Toggle case of the selection (or 1 byte)
  Ctrl+C                  Copy the selection to the clipboard. What is
                           copied follows the column the block was
                           selected in: hex bytes, or the text those
                           bytes spell in enc1 / enc2
  Ctrl+Z                  Revert changed bytes in the selection
  Ctrl+K                  Modify Block dialog
  Alt+M                   Colorize block (new or existing)
  Mouse drag              Selects too; Enter keeps the block, Esc clears it

HEX VIEW - search & lists
  Ctrl+B                Open Find Pattern dialog (text or hex, Tab/Up/Down
                         to switch field, Enter searches the focused one)
  F3 / Shift+F3          Repeat last pattern search forward / backward
  Alt+N                 Names dialog
  F6                    Strings list
  Alt+E / Alt+Shift+E   Change primary / secondary text encoding

NAMES DIALOG (Alt+N) - the comments in this file
  Up / Down               Move through the list
  PageUp / PageDown       Scroll
  Enter                   Go to that offset
  F2                      Edit that comment
  Delete                  Delete that comment (stays in the list)
  f                       Filter by regex
  o / n                   Sort by offset / by comment text
  Esc                     Close

DISASSEMBLY VIEW
  Up / Down             Previous / next instruction
  PageUp / PageDown     Scroll one page of instructions
  Home / End            First / last instruction
  Shift + movement       Extend selection
  Enter                   Follow branch or memory target
  Ctrl+Enter              Follow target and switch to Hex view
  Space                  Assemble instruction at cursor
                          (numbers are hex; add 't' for decimal, e.g.
                           'push 10' = 0x10, 'push 10t' = 10)
  Ctrl+C                 Copy selected instructions to clipboard
  Ctrl+E                 Edit Data dialog
  Ctrl+R                 Cross References (Xref) search
  F6                      Strings list (addresses shown as VA here)
  Delete                  Fill the instruction under the cursor with NOPs
                           (uses its exact decoded length)
  Ctrl+Z / Alt+Backspace  Undo last change
  Ctrl+Y                  Redo last undone change
  Alt+F3                  Revert only the byte under the cursor

TEXT VIEW
  Up / Down              Scroll a line, then move the window through the file
  Left / Right           Scroll sideways
  Home / Ctrl+Home       Start of line / start of file
  Ctrl+End                End of last visible line
  PageUp / PageDown       Scroll one page
  Alt+E                   Change text encoding

HEADER VIEW
  Left / Right          Switch pane, move column
  Up / Down             Move selection
  PageUp / PageDown     Move a screenful
  Home / End            First / last entry
  Tab                   Switch sidebar <-> detail pane
  Enter                 Edit the selected field
  g / f                 Jump to that field's offset in Hex view
  Esc / q               Leave Header view

HEADER VIEW - Section Tools (PE only, sidebar category 7)
  Align Offset to VA    Set PointerToRawData = VirtualAddress
  Add New Section       Append a section of a given size (default 0x1000)
  Note                  Edits stay in memory; ':w' writes them to disk

COMMAND LINE (':' to open)
  :q                      Quit
  :about  /  :ver         Program info (same as F8; 'y' copies it)
  :w [file]               Save (to file, if given)
  :wq  /  :x [file]       Save and quit
  :wb <file>  /  :wblock <file>   Save selected block to file
  :o [file]  /  :open [file]      Open file (blank = Open dialog)
  :cmt <offset> <text>    Add a comment at offset
  :<address>              Goto address (hex; 't' suffix = decimal;
                           '+'/'-' prefix = relative; 'cur'/'base'/'oep'
                           keywords; supports + and - expressions)
  :set                    Show every option and its current value
  :set byteline <n|auto>  Bytes shown per line (alias: width)
  :set ctrlchar <c>       Non-graphic byte placeholder character
  :set enc1 <name>        Primary encoding (utf-8, cp949, cp936,
                           iso-8859-1, iso-8859-2, utf-16le, utf-16be)
  :set enc2 <name|none>   Secondary encoding, same names plus 'none'
  :set lang en|ko|zh      Interface language (English, 한국어, 中文).
                           Labels only: key names, option names and the
                           status-bar modes stay as they are
  :set theme <name>       Load a hex-view color theme. Disassembly
                           colors are left alone unless the theme file
                           declares them; use ':set disasmtheme' for those
  :set disasmtheme <name>  Disassembly colors only: dark, light, grey,
                           another theme name, or a path to a file
  :set addr va|offset|toggle    Address column contents
                           (':set va' and ':set offset' still work)
  :set bitness <16|32|64|auto>  Force the disassembly decoding width
  :set view hex|disasm|text|header   Switch view

  Every on/off option below takes 'on', 'off' or 'toggle'; with no
  value it turns on. The old 'no<name>' spellings still work.
  :set highlight          Disassembly syntax colors (alias: hilight)
  :set hintbar            Bottom hint line (hold Ctrl or Alt while it
                           is showing to see those bindings)
  :set wrapscan           Wrap search around EOF
  :set db                 Write the .dzdb annotation sidecar file
  :set dimctrl            Dim control bytes
  :set dimzero            Dim null bytes (independent of dimctrl)
  :set disasm_mem/reg/imm/kw/seg/import/import_fg/comment <color>
                          Disassembly colors, #rrggbb or a name
";

/// The keyboard reference in Korean. Key names, option names and encoding
/// names are never translated: they are what the user types.
pub const HELP_KO: &'static str = "\
공통 (모든 뷰)
  Tab / Shift+Tab      뷰 전환 (헥스 <-> 디스어셈블, 실행 파일만)
  F6                   문자열 목록
  F7                   텍스트 뷰 (다시 누르면 복귀)
  F4                   헤더 뷰 (다시 누르면 복귀)
  F5                   문자열 참조 목록
  F8                   프로그램 정보 (경로, 인코딩, 라이선스)
  F9 / Ctrl+O          파일 열기 다이얼로그
  F12                  저장하고 종료 (':wq'와 동일)
  Alt+F1               드라이브 선택
  Alt+F2               주소 표시 전환: 파일 옵셋 <-> VA
  Alt+F6               이미지 베이스 지정 (비우면 파일 값으로 복귀)
  Alt+F7               디코딩 비트 수 순환: auto -> 16 -> 32 -> 64
  ;                    커서 위치에 주석 달기
  Esc                  뒤로 / 취소 / 선택 해제
  :                    커맨드 라인
  =                    계산기 (기본 16진수, 't'는 10진수,
                        Ctrl+L 지우기, 위/아래 히스토리)
  Ctrl+G               주소로 이동 (옵셋 또는 VA)
  Ctrl+X               현재 VA를 클립보드에 복사
  Ctrl+Left / '-'      이전 커서 위치로 되돌아가기
  Ctrl+Right / '+'     다음 커서 위치로 가기
  Alt+L                로그 창 (y 로 클립보드 복사)
  Ctrl+K               블록 일괄 수정
  Ctrl+H               와일드카드 16진 패턴 바꾸기
  Ctrl+B               패턴 찾기 (ANSI/UTF-8/UNICODE/16진)
  F3 / Shift+F3        마지막 패턴 검색 반복: 정방향 / 역방향
  Ctrl+R               Xref (상호 참조) 검색

헥스 뷰 - 이동
  화살표               커서 이동
  Home / Ctrl+Home     줄 시작 / 파일 시작
  End / Ctrl+End       줄 끝 / 파일 끝
  PageUp / PageDown    한 페이지 스크롤
  Backspace            직전에 있던 옵셋으로
  [ / ]                블록 지정: 커서 위치를 시작 / 끝으로
  Alt+[ / Alt+]        블록의 양 끝, 또는 가까운 색칠 블록 경계로 이동

헥스 뷰 - 편집
  F2                   커서 위치에서 편집 모드 시작
  Tab                  편집 칼럼 전환: HEX -> enc1 -> enc2
  Shift + 화살표       포커스된 칼럼에서 블록 선택
  Ctrl+C               그 블록 복사 (바이트 칼럼이면 16진수,
                        인코딩 칼럼이면 디코딩된 텍스트)
  Ctrl+E               데이터 편집 다이얼로그
  ~                    커서 바이트의 대소문자 전환
  Shift+V              클립보드의 16진수 또는 텍스트 붙여넣기
  Alt+H                커서 바이트 값 강조 표시 전환
  Ctrl+Z / Alt+Backspace  마지막 변경 되돌리기 (블록 포함)
  Ctrl+Y               되돌린 변경 다시 실행
  Alt+F3               커서 바이트만 원래 값으로 복원

헥스 뷰 - 편집 모드 안에서 (F2)
  0-9 a-f              16진수 입력 (두 자리가 한 바이트)
  Tab                  칼럼 전환: HEX -> enc1 -> enc2
  Shift + 화살표       포커스된 칼럼에서 블록 선택
  Ctrl+C               그 블록 복사
  Ctrl+E               데이터 편집 다이얼로그 (여기서도 동작)
  ~                    대소문자 전환 후 다음 바이트로
  Esc / Enter          편집 모드 종료

헥스 뷰 - 블록 선택
  Shift + 이동키       선택 시작 / 확장 (디스어셈블 뷰와 동일)
  Esc                  선택 해제
  Insert               블록을 0x00으로 채움 (선택 없으면 1바이트)
  Delete               블록을 0x90 NOP으로 채움 (또는 1바이트)
  ~                    블록의 대소문자 전환 (또는 1바이트)
  Ctrl+C               블록을 클립보드로 복사. 무엇이 복사되는지는
                        블록을 지정한 칼럼에 따름: 16진 바이트이거나
                        그 바이트를 enc1 / enc2로 읽은 텍스트
  Ctrl+Z               블록의 변경 바이트 되돌리기
  Ctrl+K               블록 일괄 수정
  Alt+M                블록 색칠 (새로 만들거나 기존 블록)
  마우스 드래그        선택 가능. Enter로 유지, Esc로 해제

헥스 뷰 - 검색과 목록
  Ctrl+B               패턴 찾기 (텍스트 또는 16진수, Tab/위/아래로
                        칸 이동, Enter로 포커스된 칸 검색)
  F3 / Shift+F3        마지막 패턴 검색 반복: 정방향 / 역방향
  Alt+N                주석 목록
  F6                   문자열 목록
  Alt+E / Alt+Shift+E  주 / 보조 텍스트 인코딩 변경

주석 목록 (Alt+N) - 이 파일의 주석들
  위 / 아래            목록 이동
  PageUp / PageDown    스크롤
  Enter                해당 옵셋으로 이동
  F2                   그 주석 수정
  Delete               그 주석 삭제 (목록에 머무름)
  f                    정규식으로 필터
  o / n                옵셋순 / 주석 내용순 정렬
  Esc                  닫기

디스어셈블 뷰
  위 / 아래            이전 / 다음 명령어
  PageUp / PageDown    한 페이지 스크롤
  Home / End           첫 / 마지막 명령어
  Shift + 이동키       선택 확장
  Enter                분기 또는 메모리 대상 따라가기
  Ctrl+Enter           대상을 따라가면서 헥스 뷰로 전환
  Space                커서 위치에 어셈블
                        (숫자는 16진수, 10진수는 't' 접미사.
                         'push 10' = 0x10, 'push 10t' = 10)
  Ctrl+C               선택한 명령어를 클립보드로 복사
  Ctrl+E               데이터 편집 다이얼로그
  Ctrl+R               Xref (상호 참조) 검색
  F6                   문자열 목록 (여기서는 주소가 VA)
  Delete               커서 명령어를 NOP으로 채움
                        (디코딩된 실제 길이만큼)
  Ctrl+Z / Alt+Backspace  마지막 변경 되돌리기
  Ctrl+Y               되돌린 변경 다시 실행
  Alt+F3               커서 바이트만 원래 값으로 복원

텍스트 뷰
  위 / 아래            한 줄 스크롤, 이어서 파일 창 이동
  왼쪽 / 오른쪽        좌우 스크롤
  Home / Ctrl+Home     줄 시작 / 파일 시작
  Ctrl+End             마지막으로 보이는 줄의 시작
  PageUp / PageDown    한 페이지 스크롤
  Alt+E                텍스트 인코딩 변경

헤더 뷰
  왼쪽 / 오른쪽        패널 전환, 칼럼 이동
  위 / 아래            선택 이동
  PageUp / PageDown    한 화면씩 이동
  Home / End           첫 항목 / 마지막 항목
  Tab                  사이드바 <-> 상세 패널 전환
  Enter                선택한 필드 수정
  g / f                그 필드의 옵셋으로 헥스 뷰에서 이동
  Esc / q              헤더 뷰 나가기

헤더 뷰 - 섹션 도구 (PE 전용, 사이드바 7번 항목)
  Align Offset to VA   PointerToRawData = VirtualAddress 로 맞춤
  Add New Section      지정한 크기의 섹션 추가 (기본 0x1000)
  참고                 수정은 메모리에만 남음. ':w'로 디스크에 기록

커맨드 라인 (':'로 열기)
  :q                   종료
  :about  /  :ver      프로그램 정보 (F8과 동일, 'y'로 복사)
  :w [파일]            저장 (파일명을 주면 그 파일로)
  :wq  /  :x [파일]    저장하고 종료
  :wb <파일>  /  :wblock <파일>   선택한 블록을 파일로 저장
  :o [파일]  /  :open [파일]      파일 열기 (비우면 다이얼로그)
  :cmt <옵셋> <내용>  해당 옵셋에 주석 추가
  :<주소>              주소로 이동 (16진수. 't' 접미사는 10진수,
                        '+'/'-' 접두사는 상대 이동, 'cur'/'base'/'oep'
                        키워드와 + - 수식 사용 가능)
  :set                 모든 옵션과 현재 값 보기
  :set byteline <n|auto>  한 줄에 표시할 바이트 수 (별칭: width)
  :set ctrlchar <문자>    표시 불가 바이트를 대신할 문자
  :set enc1 <이름>     주 인코딩 (utf-8, cp949, cp936,
                        iso-8859-1, iso-8859-2, utf-16le, utf-16be)
  :set enc2 <이름|none>   보조 인코딩. 위와 같은 이름에 'none' 추가
  :set lang en|ko|zh   인터페이스 언어 (English, 한국어, 中文).
                        라벨만 바뀜. 키 이름, 옵션 이름, 상태줄의
                        모드 표시는 그대로 유지됨
  :set theme <이름>    헥스 뷰 색 테마. 테마 파일이 디스어셈블 색을
                        선언하지 않았다면 그 색은 그대로 유지되며,
                        그 경우 ':set disasmtheme'를 사용
  :set disasmtheme <이름>  디스어셈블 색만: dark, light, grey,
                        다른 테마 이름, 또는 파일 경로
  :set addr va|offset|toggle   주소 칼럼 내용
                        (':set va', ':set offset'도 동작)
  :set bitness <16|32|64|auto>  디스어셈블 디코딩 비트 수 고정
  :set view hex|disasm|text|header   뷰 전환

  아래의 켜기/끄기 옵션은 'on', 'off', 'toggle'을 받으며 값을
  생략하면 켜짐. 예전의 'no<이름>' 표기도 그대로 동작함.
  :set highlight       디스어셈블 구문 색 (별칭: hilight)
  :set hintbar         하단 힌트 줄 (표시 중에 Ctrl 또는 Alt를
                        누르고 있으면 그 조합의 목록이 나옴)
  :set wrapscan        파일 끝에서 검색 순환
  :set db              .dzdb 주석 파일 저장
  :set dimctrl         제어 바이트 흐리게
  :set dimzero         널 바이트 흐리게 (dimctrl과 독립)
  :set disasm_mem/reg/imm/kw/seg/import/import_fg/comment <색>
                       디스어셈블 색상. #rrggbb 또는 색 이름
";

/// The keyboard reference in Chinese. Key names, option names and encoding
/// names are never translated: they are what the user types.
pub const HELP_ZH: &'static str = "\
通用 (所有视图)
  Tab / Shift+Tab      切换视图 (十六进制 <-> 反汇编，仅可执行文件)
  F6                   字符串列表
  F7                   文本视图 (再按一次返回)
  F4                   头部视图 (再按一次返回)
  F5                   字符串引用列表
  F8                   程序信息 (路径、编码、许可证)
  F9 / Ctrl+O          打开文件对话框
  F12                  保存并退出 (等同 ':wq')
  Alt+F1               选择驱动器
  Alt+F2               地址显示切换：文件偏移 <-> VA
  Alt+F6               设置映像基址 (留空则恢复文件自身的值)
  Alt+F7               循环解码位宽：auto -> 16 -> 32 -> 64
  ;                    为光标处的字节添加注释
  Esc                  返回 / 取消 / 清除选择
  :                    命令行
  =                    计算器 (默认十六进制，'t' 为十进制，
                        Ctrl+L 清空，上/下为历史)
  Ctrl+G               跳转到地址 (偏移或 VA)
  Ctrl+X               复制当前 VA 到剪贴板
  Ctrl+Left / '-'      返回上一个光标位置
  Ctrl+Right / '+'     前进到下一个光标位置
  Alt+L                日志窗口 (y 复制到剪贴板)
  Ctrl+K               批量修改块
  Ctrl+H               通配符十六进制模式替换
  Ctrl+B               查找模式 (ANSI/UTF-8/UNICODE/十六进制)
  F3 / Shift+F3        重复上次模式搜索：向前 / 向后
  Ctrl+R               交叉引用 (Xref) 搜索

十六进制视图 - 移动
  方向键               移动光标
  Home / Ctrl+Home     行首 / 文件开头
  End / Ctrl+End       行尾 / 文件末尾
  PageUp / PageDown    翻页
  Backspace            回到上一次访问的偏移
  [ / ]                标记块：以光标处为起点 / 终点
  Alt+[ / Alt+]        跳到块的两端，或最近的着色块边界

十六进制视图 - 编辑
  F2                   在光标处进入编辑模式
  Tab                  切换编辑列：HEX -> enc1 -> enc2
  Shift + 方向键       在当前列选择一个块
  Ctrl+C               复制该块 (字节列为十六进制，
                        编码列为解码后的文本)
  Ctrl+E               数据编辑对话框
  ~                    切换光标字节的大小写
  Shift+V              粘贴剪贴板中的十六进制或文本
  Alt+H                切换光标字节值的高亮
  Ctrl+Z / Alt+Backspace  撤销上次修改 (含选区)
  Ctrl+Y               重做被撤销的修改
  Alt+F3               仅将光标处的字节还原为原值

十六进制视图 - 编辑模式内 (F2)
  0-9 a-f              输入十六进制数字 (两位构成一个字节)
  Tab                  切换列：HEX -> enc1 -> enc2
  Shift + 方向键       在当前列选择一个块
  Ctrl+C               复制该块
  Ctrl+E               数据编辑对话框 (此处也可用)
  ~                    切换大小写并前进
  Esc / Enter          退出编辑模式

十六进制视图 - 块选择
  Shift + 移动键       开始 / 扩展选择 (与反汇编视图相同)
  Esc                  清除选择
  Insert               将选区填充为 0x00 (无选区则填一个字节)
  Delete               将选区填充为 0x90 NOP (或一个字节)
  ~                    切换选区的大小写 (或一个字节)
  Ctrl+C               复制选区到剪贴板。复制的内容取决于
                        选择时所在的列：十六进制字节，或按
                        enc1 / enc2 解读出的文本
  Ctrl+Z               撤销选区内已修改的字节
  Ctrl+K               批量修改块
  Alt+M                为块着色 (新建或已有的块)
  鼠标拖动             也可选择。Enter 保留，Esc 清除

十六进制视图 - 搜索与列表
  Ctrl+B               查找模式 (文本或十六进制，Tab/上/下
                        切换输入框，Enter 搜索当前框)
  F3 / Shift+F3        重复上次模式搜索：向前 / 向后
  Alt+N                注释列表
  F6                   字符串列表
  Alt+E / Alt+Shift+E  更改主 / 次文本编码

注释列表 (Alt+N) - 本文件中的注释
  上 / 下              在列表中移动
  PageUp / PageDown    滚动
  Enter                跳转到该偏移
  F2                   编辑该注释
  Delete               删除该注释 (停留在列表中)
  f                    用正则过滤
  o / n                按偏移 / 按注释文本排序
  Esc                  关闭

反汇编视图
  上 / 下              上一条 / 下一条指令
  PageUp / PageDown    翻页
  Home / End           第一条 / 最后一条指令
  Shift + 移动键       扩展选择
  Enter                跟随分支或内存目标
  Ctrl+Enter           跟随目标并切换到十六进制视图
  Space                在光标处汇编
                        (数字为十六进制；十进制加 't'，
                         'push 10' = 0x10，'push 10t' = 10)
  Ctrl+C               复制所选指令到剪贴板
  Ctrl+E               数据编辑对话框
  Ctrl+R               交叉引用 (Xref) 搜索
  F6                   字符串列表 (此处地址显示为 VA)
  Delete               用 NOP 填充光标处的指令
                        (按解码出的实际长度)
  Ctrl+Z / Alt+Backspace  撤销上次修改
  Ctrl+Y               重做被撤销的修改
  Alt+F3               仅将光标处的字节还原为原值

文本视图
  上 / 下              滚动一行，然后移动文件窗口
  左 / 右              左右滚动
  Home / Ctrl+Home     行首 / 文件开头
  Ctrl+End             最后一行可见行的开头
  PageUp / PageDown    翻页
  Alt+E                更改文本编码

头部视图
  左 / 右              切换面板，移动列
  上 / 下              移动选择
  PageUp / PageDown    翻页
  Home / End           第一项 / 最后一项
  Tab                  侧栏 <-> 详情面板
  Enter                编辑所选字段
  g / f                在十六进制视图中跳到该字段的偏移
  Esc / q              离开头部视图

头部视图 - 节工具 (仅 PE，侧栏第 7 项)
  Align Offset to VA   令 PointerToRawData = VirtualAddress
  Add New Section      追加一个指定大小的节 (默认 0x1000)
  注意                 修改只在内存中，':w' 才写入磁盘

命令行 (按 ':' 打开)
  :q                   退出
  :about  /  :ver      程序信息 (等同 F8，'y' 复制)
  :w [文件]            保存 (给出文件名则另存)
  :wq  /  :x [文件]    保存并退出
  :wb <文件>  /  :wblock <文件>   将所选块保存为文件
  :o [文件]  /  :open [文件]      打开文件 (留空则弹出对话框)
  :cmt <偏移> <内容>   在该偏移添加注释
  :<地址>              跳转到地址 (十六进制；'t' 后缀为十进制，
                        '+'/'-' 前缀为相对，可用 'cur'/'base'/'oep'
                        关键字以及 + - 表达式)
  :set                 显示所有选项及当前值
  :set byteline <n|auto>  每行显示的字节数 (别名：width)
  :set ctrlchar <字符>    非可见字节的替代字符
  :set enc1 <名称>     主编码 (utf-8, cp949, cp936,
                        iso-8859-1, iso-8859-2, utf-16le, utf-16be)
  :set enc2 <名称|none>   次编码，同上并可用 'none'
  :set lang en|ko|zh   界面语言 (English, 한국어, 中文)。
                        仅标签改变：键名、选项名和状态栏中的
                        模式标识保持不变
  :set theme <名称>    十六进制视图配色。若主题文件未声明反汇编
                        颜色，则这些颜色保持不变；那种情况请用
                        ':set disasmtheme'
  :set disasmtheme <名称>  仅反汇编配色：dark, light, grey,
                        其他主题名，或文件路径
  :set addr va|offset|toggle   地址列内容
                        (':set va'、':set offset' 仍然有效)
  :set bitness <16|32|64|auto>  固定反汇编解码位宽
  :set view hex|disasm|text|header   切换视图

  下列开关选项接受 'on'、'off' 或 'toggle'；省略值即为开启。
  旧的 'no<名称>' 写法仍然有效。
  :set highlight       反汇编语法配色 (别名：hilight)
  :set hintbar         底部提示栏 (显示时按住 Ctrl 或 Alt
                        可看到对应的组合键)
  :set wrapscan        搜索在文件末尾回绕
  :set db              写入 .dzdb 注释文件
  :set dimctrl         淡化控制字节
  :set dimzero         淡化空字节 (与 dimctrl 独立)
  :set disasm_mem/reg/imm/kw/seg/import/import_fg/comment <颜色>
                       反汇编颜色，#rrggbb 或颜色名
";

/// The help text in the interface language.
pub fn help_text(lang: Lang) -> (s: &'static str)
    ensures
        s == match lang {
            Lang::En => HELP_EN,
            Lang::Ko => HELP_KO,
            Lang::Zh => HELP_ZH,
        },
{
    match lang {
        Lang::En => HELP_EN,
        Lang::Ko => HELP_KO,
        Lang::Zh => HELP_ZH,
    }
}

/// Columns left for the text in a help box `box_width` wide: the border and
/// the padding take four, and at least one always remains.
pub fn help_text_width(box_width: u16) -> (w: u16)
    ensures
        w == if box_width >= 5 { box_width - 4 } else { 1 },
{
    let w = box_width.saturating_sub(4);
    if w < 1 { 1 } else { w }
}

/// The width of the help box on a screen `width` columns wide: four less
/// than the screen, between 20 and 78.
pub fn help_box_width(width: u16) -> (w: u16)
    ensures
        w == if width < 24 { 20 } else if width - 4 > 78 { 78 } else { width - 4 },
{
    let w = width.saturating_sub(4);
    let w = if w < 78 { w } else { 78 };
    if w > 20 { w } else { 20 }
}

/// The display width `unicode-width` gives the text `s`
/// (`UnicodeWidthStr::width`).
pub uninterp spec fn text_columns(s: Seq<char>) -> usize;

/// Display width of `s` in terminal columns (`UnicodeWidthStr::width`).
#[verifier::external_body]
fn str_columns(s: &str) -> (w: usize)
    ensures
        w == text_columns(s@),
{
    s.width()
}

/// The end of the line that starts at `i`: the first newline from `i` on,
/// or the end of `s`.
pub open spec fn line_end(s: Seq<char>, i: int) -> int
    decreases s.len() - i,
{
    if i < 0 || i >= s.len() {
        s.len() as int
    } else if s[i] == '\n' {
        i
    } else {
        line_end(s, i + 1)
    }
}

/// The lines of `s` from `i` on, as `str::lines` gives them: split at each
/// newline, a carriage return before it dropped, no empty line after a
/// final newline.
pub open spec fn lines_from(s: Seq<char>, i: int) -> Seq<Seq<char>>
    decreases (if i < s.len() { s.len() - i } else { 0 }),
{
    if i < 0 || i >= s.len() {
        seq![]
    } else {
        let e = line_end(s, i);
        let line = if e < s.len() && e > i && s[e - 1] == '\r' { s.subrange(i, e - 1) } else { s.subrange(i, e) };
        if e < i {
            seq![]
        } else {
            seq![line] + lines_from(s, e + 1)
        }
    }
}

/// The rows one line takes when wrapped to `tw` columns: at least one.
pub open spec fn line_rows(line: Seq<char>, tw: nat) -> u16 {
    let w = text_columns(line) as nat;
    let r = if w % tw == 0 { w / tw } else { w / tw + 1 };
    (if r < 1 { 1 } else { r }) as u16
}

/// The rows the lines `ls` take, counted up to `u16::MAX`.
pub open spec fn rows_of(ls: Seq<Seq<char>>, tw: nat) -> nat
    decreases ls.len(),
{
    if ls.len() == 0 {
        0
    } else {
        let r = rows_of(ls.drop_last(), tw) + line_rows(ls.last(), tw) as nat;
        if r > u16::MAX { u16::MAX as nat } else { r }
    }
}

/// The rows `text` takes in a help box `box_width` wide, counted up to
/// `u16::MAX`.
pub open spec fn help_rows(text: Seq<char>, box_width: u16) -> nat {
    let tw: nat = if box_width >= 5 { (box_width - 4) as nat } else { 1 };
    rows_of(lines_from(text, 0), tw)
}

proof fn lemma_line_end_bounds(s: Seq<char>, i: int)
    requires
        0 <= i <= s.len(),
    ensures
        i <= line_end(s, i) <= s.len(),
        line_end(s, i) < s.len() ==> s[line_end(s, i)] == '\n',
        forall|j: int| i <= j < line_end(s, i) ==> s[j] != '\n',
    decreases s.len() - i,
{
    if i < s.len() && s[i] != '\n' {
        lemma_line_end_bounds(s, i + 1);
    }
}

/// The lines of `cs` (see `lines_from`).
fn split_lines(cs: &[char]) -> (r: Vec<Vec<char>>)
    ensures
        r@.len() == lines_from(cs@, 0).len(),
        forall|k: int| 0 <= k < r@.len() ==> (#[trigger] r@[k])@ == lines_from(cs@, 0)[k],
{
    let mut out: Vec<Vec<char>> = Vec::new();
    let mut i: usize = 0;
    let n = cs.len();
    let ghost s = cs@;
    while i < n
        invariant
            i <= n,
            n == s.len(),
            s == cs@,
            out@.len() + lines_from(s, i as int).len() == lines_from(s, 0).len(),
            forall|k: int| 0 <= k < out@.len() ==> (#[trigger] out@[k])@ == lines_from(s, 0)[k],
            forall|k: int| 0 <= k < lines_from(s, i as int).len() ==> lines_from(s, i as int)[k] == lines_from(s, 0)[out@.len() + k],
        decreases n - i,
    {
        proof {
            lemma_line_end_bounds(s, i as int);
        }
        let mut e = i;
        while e < n && cs[e] != '\n'
            invariant
                i <= e <= n,
                n == s.len(),
                s == cs@,
                line_end(s, i as int) == line_end(s, e as int),
            decreases n - e,
        {
            e = e + 1;
        }
        let stop = if e < n && e > i && cs[e - 1] == '\r' { e - 1 } else { e };
        let mut line: Vec<char> = Vec::new();
        let mut k = i;
        while k < stop
            invariant
                i <= k <= stop,
                stop <= n,
                n == s.len(),
                s == cs@,
                line@ == s.subrange(i as int, k as int),
            decreases stop - k,
        {
            line.push(cs[k]);
            k = k + 1;
            assert(line@ =~= s.subrange(i as int, k as int));
        }
        let ghost rest = lines_from(s, e + 1);
        assert(lines_from(s, i as int) == seq![line@] + rest);
        let ghost before = out@.len();
        out.push(line);
        proof {
            assert forall|k: int| 0 <= k < rest.len() implies rest[k] == lines_from(s, 0)[out@.len() + k] by {
                assert(lines_from(s, i as int)[k + 1] == rest[k]);
            }
            assert(out@[before as int]@ == lines_from(s, i as int)[0]);
        }
        i = if e < n { e + 1 } else { n };
        proof {
            if e >= n {
                assert(lines_from(s, n as int).len() == 0);
                assert(rest.len() == 0);
            }
        }
    }
    out
}

/// The rows `text` occupies in a help box `box_width` wide, each line
/// wrapped to the columns the text has (see `help_rows`).
pub fn help_row_count(text: &str, box_width: u16) -> (n: u16)
    ensures
        n as nat == help_rows(text@, box_width),
{
    let tw = help_text_width(box_width) as usize;
    let cs = chars_of(text);
    let lines = split_lines(cs.as_slice());
    let ghost ls = lines_from(text@, 0);
    let mut total: u16 = 0;
    let mut i: usize = 0;
    while i < lines.len()
        invariant
            i <= lines@.len(),
            lines@.len() == ls.len(),
            forall|k: int| 0 <= k < lines@.len() ==> (#[trigger] lines@[k])@ == ls[k],
            tw >= 1,
            tw as nat == (if box_width >= 5 { (box_width - 4) as nat } else { 1 }),
            total as nat == rows_of(ls.take(i as int), tw as nat),
        decreases lines@.len() - i,
    {
        let line = string_of(lines[i].as_slice());
        let w = str_columns(line.as_str());
        let q = w / tw;
        assert(w % tw != 0 ==> q < usize::MAX) by (nonlinear_arith)
            requires
                tw >= 1,
                q == w / tw,
                w <= usize::MAX,
        {
            if tw == 1 {
                assert(w % tw == 0);
            } else {
                assert(q <= w / 2);
            }
        }
        let r = if w % tw == 0 { q } else { q + 1 };
        let r = if r < 1 { 1 } else { r };
        let rows = #[verifier::truncate] (r as u16);
        assert(rows == line_rows(ls[i as int], tw as nat));
        total = if rows > u16::MAX - total { u16::MAX } else { total + rows };
        proof {
            assert(ls.take(i + 1).drop_last() =~= ls.take(i as int));
        }
        i = i + 1;
    }
    assert(ls.take(ls.len() as int) =~= ls);
    total
}

/// The furthest the help text can be scrolled in a box `box_width` wide and
/// `box_height` high: the rows that do not fit between the borders.
pub fn max_help_scroll(text: &str, box_width: u16, box_height: u16) -> (n: u16)
    ensures
        n as int == {
            let visible: int = if box_height >= 2 { box_height - 2 } else { 0 };
            if help_rows(text@, box_width) >= visible { help_rows(text@, box_width) - visible } else { 0 }
        },
{
    let visible = box_height.saturating_sub(2);
    help_row_count(text, box_width).saturating_sub(visible)
}

/// The height of the help box: the text's rows and the two borders, at
/// most the screen's height less four (but at least eight).
pub open spec fn help_box_height(app: App) -> int {
    let text = help_text_spec(app.config.lang);
    let avail: int = if app.screen_height >= 12 { app.screen_height - 4 } else { 8 };
    let want: int = help_rows(text, help_box_width_spec(app.screen_width)) as int + 2;
    if want < avail { want } else { avail }
}

/// The help text in `lang`.
pub open spec fn help_text_spec(lang: Lang) -> Seq<char> {
    match lang {
        Lang::En => HELP_EN@,
        Lang::Ko => HELP_KO@,
        Lang::Zh => HELP_ZH@,
    }
}

/// See `help_box_width`.
pub open spec fn help_box_width_spec(width: u16) -> u16 {
    if width < 24 { 20 } else if width - 4 > 78 { 78 } else { (width - 4) as u16 }
}

/// The furthest the help box on `app`'s screen scrolls (see
/// `max_help_scroll`).
pub open spec fn help_scroll_limit(app: App) -> int {
    let h = help_box_height(app);
    let visible: int = if h >= 2 { h - 2 } else { 0 };
    let rows = help_rows(help_text_spec(app.config.lang), help_box_width_spec(app.screen_width));
    if rows >= visible { rows - visible } else { 0 }
}

/// What a key does in the help box: Esc, Enter and F1 close it and scroll
/// back to the top; Ctrl+C copies the whole text; the arrows and page keys
/// scroll by a row or ten, never past the end of the text; Home and End go
/// to the top and the end.
pub open spec fn help_key_post(a: App, b: App, key: KeyPress, act: HexAction) -> bool {
    let off = a.help_scroll_offset as int;
    let limit = help_scroll_limit(a);
    let scrolled_to = |o: int| act is Nothing && b == (App { help_scroll_offset: o as u16, ..a });
    match key.code {
        Key::Esc => act is Nothing && b == (App { state: UIState::Normal, help_scroll_offset: 0, ..a }),
        Key::Enter => act is Nothing && b == (App { state: UIState::Normal, help_scroll_offset: 0, ..a }),
        Key::F(n) => if n == 1 {
            act is Nothing && b == (App { state: UIState::Normal, help_scroll_offset: 0, ..a })
        } else {
            act is Nothing && b == a
        },
        Key::Char(c) => if (c == 'c' || c == 'C') && key.ctrl {
            crate::app::copied(a, b, act, help_text_spec(a.config.lang), "the help text"@)
        } else {
            act is Nothing && b == a
        },
        Key::Down => scrolled_to(if off + 1 < limit { off + 1 } else { limit }),
        Key::Up => scrolled_to(if off >= 1 { off - 1 } else { 0 }),
        Key::PageDown => scrolled_to(if off + 10 < limit { off + 10 } else { limit }),
        Key::PageUp => scrolled_to(if off >= 10 { off - 10 } else { 0 }),
        Key::Home => scrolled_to(0),
        Key::End => scrolled_to(limit),
        _ => act is Nothing && b == a,
    }
}

/// Handles a key in the help box (see `help_key_post`).
pub fn dialog_help_events(app: &mut App, key: KeyPress) -> (act: HexAction)
    requires
        key.code == Key::Down ==> old(app).help_scroll_offset < u16::MAX,
        key.code == Key::PageDown ==> old(app).help_scroll_offset + 10 <= u16::MAX,
    ensures
        help_key_post(*old(app), *final(app), key, act),
{
    let text = help_text(app.config.lang);
    let box_width = help_box_width(app.screen_width);
    let sh = app.screen_height.saturating_sub(4);
    let avail: u16 = if sh > 8 { sh } else { 8 };
    let rows = help_row_count(text, box_width);
    let box_height: u16 = if (rows as u32) + 2 < avail as u32 { rows + 2 } else { avail };
    let max_scroll = max_help_scroll(text, box_width, box_height);
    assert(max_scroll as int == help_scroll_limit(*app));
    let off = app.help_scroll_offset;
    match key.code {
        Key::Esc | Key::Enter => {
            app.state = UIState::Normal;
            app.help_scroll_offset = 0;
            HexAction::Nothing
        },
        Key::F(n) => {
            if n == 1 {
                app.state = UIState::Normal;
                app.help_scroll_offset = 0;
            }
            HexAction::Nothing
        },
        Key::Char(c) => {
            if (c == 'c' || c == 'C') && key.ctrl {
                proof {
                    reveal_strlit("the help text");
                }
                app.copy_to_clipboard(string_from(text), "the help text")
            } else {
                HexAction::Nothing
            }
        },
        Key::Down => {
            app.help_scroll_offset = if off + 1 < max_scroll { off + 1 } else { max_scroll };
            HexAction::Nothing
        },
        Key::Up => {
            app.help_scroll_offset = off.saturating_sub(1);
            HexAction::Nothing
        },
        Key::PageDown => {
            app.help_scroll_offset = if off + 10 < max_scroll { off + 10 } else { max_scroll };
            HexAction::Nothing
        },
        Key::PageUp => {
            app.help_scroll_offset = off.saturating_sub(10);
            HexAction::Nothing
        },
        Key::Home => {
            app.help_scroll_offset = 0;
            HexAction::Nothing
        },
        Key::End => {
            app.help_scroll_offset = max_scroll;
            HexAction::Nothing
        },
        _ => HexAction::Nothing,
    }
}

} // verus!

# fishnet

Run selected programs through a VPN on Linux, without touching the rest of the system.

fishnet makes a network namespace (`fishnetns`), connects it to the internet through a pair of
links with address translation, and lets a WireGuard VPN come up inside it. A program started with
`fishnet exec` only runs once the VPN is up, and only such programs use the tunnel.

| Command | What it does |
|---|---|
| `up` | Makes the namespace, the links, forwarding and the packet filter rules. Rebuilds what is stale. |
| `connect -- <cmd>` | Runs `<cmd>` as root inside the namespace, without the kill switch. |
| `exec [-d] -- <cmd>` | Runs `<cmd>` as the calling user inside the namespace, if a `wg*` link is there. `-d` detaches. |
| `status` | Shows namespace, links, uplink, VPN, number of processes and the exit address. |
| `ps [-f]` | Lists the processes inside the namespace. `-f` shows commands whole. |
| `down` | Ends every process in the namespace and removes all state. |

## Layout

`src/` decides and computes, and is verified with Verus. It never reads or changes the host. What is
to be done comes out of it as plain values: a list of steps, or the next action after an event.

Seven small functions in it are believed, not proved: six in `abi` that give numbers of the libc crate
(`sigterm`, `sigkill`, `einval`, `eperm`, `nfproto_ipv4`, `nfproto_ipv6`), and `from_utf8_lossy` in
`process`, which calls the standard library's function of that name.

- `text`, `number`, `path`, `subnet`: strings, decimal numbers, paths, address masks
- `plan`: steps that are taken in order until one fails
- `nft`, `firewall`, `traffic`: the packet filter, the rules that `up` installs, and what they let through
- `sysctl`: the forwarding settings, saved and put back
- `link`, `uplink`, `veth`: links and routes, the search for the uplink, the pair of links
- `netns`, `process`, `kill`: the namespace, the processes in it, and how they are ended
- `caller`, `environ`, `exec`, `killswitch`: who a command runs as, with which environment, by which steps, and whether at all
- `cli`: the order of work in `up` and `down`, and what is printed

Functions named `law_...` are proofs about the library as a whole: which packets pass, that no
command for the caller keeps root, that nothing is left of the inherited environment but what is
listed.

`app/` is the program around it: it talks to the kernel and prints. `tests/` runs the library on
concrete values.
